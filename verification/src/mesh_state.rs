//! The WiFi/mesh state machine of a node.
//!
//! The typestate `WifiMeshState<W, M, S, O>` records WiFi mode, mesh state,
//! scan state and update state in its type, so that only permitted
//! transitions can be written. The dynamic facts (root or not, layer, IP,
//! channel, update bookkeeping) live in a `StateContainer`; every transition
//! updates it. Radio and flash work is done by the caller around each
//! transition.

use vstd::prelude::*;
use core::marker::PhantomData;
use std::collections::HashMap;
use crate::ota::{FirmwareChunk, chunk_count, chunk_bytes, chunk_is_valid, fragment_firmware};

verus! {

broadcast use vstd::std_specs::hash::group_hash_axioms;

/// WiFi not initialised yet.
pub struct Uninitialized;

/// WiFi in station mode only: can scan and connect.
pub struct Sta;

/// WiFi in access-point mode only.
pub struct Ap;

/// WiFi in station plus access-point mode, as the mesh needs.
pub struct StaAp;

/// The mesh is not running.
pub struct MeshInactive;

/// The mesh runs with self-organisation off: limited WiFi calls allowed.
pub struct MeshActive;

/// The mesh runs self-organised: no WiFi calls allowed.
pub struct MeshSelfOrganized;

/// No scan running.
pub struct NotScanning;

/// A scan is running.
pub struct Scanning;

/// No update running.
pub struct OtaIdle;

/// Root: downloading an image.
pub struct OtaDownloading;

/// Root: handing chunks out.
pub struct OtaDistributing;

/// Child: receiving chunks.
pub struct OtaReceiving;

/// The image is in place; waiting to reboot.
pub struct OtaReadyToReboot;

/// An update runs (generic form).
pub struct OtaActive;

/// The WiFi mode, as a value.
#[derive(Debug, Clone, Copy, PartialEq, Eq, Structural)]
pub enum WifiModeRuntime {
    Uninitialized,
    Sta,
    Ap,
    StaAp,
}

/// The mesh state, as a value.
#[derive(Debug, Clone, Copy, PartialEq, Eq, Structural)]
pub enum MeshStateRuntime {
    Inactive,
    Active,
    SelfOrganized,
}

/// The scan state, as a value.
#[derive(Debug, Clone, Copy, PartialEq, Eq, Structural)]
pub enum ScanStateRuntime {
    NotScanning,
    Scanning,
}

/// The update state, as a value.
#[derive(Debug, Clone, Copy, PartialEq, Eq, Structural)]
pub enum OtaStateRuntime {
    Idle,
    Downloading,
    Distributing,
    Receiving,
    ReadyToReboot,
}

/// Dynamic facts about the node. Network interfaces are kept as the
/// handles' addresses.
#[derive(Debug, Clone, Copy)]
pub struct RuntimeState {
    pub is_root: bool,
    /// Layer in the mesh, -1 when not in a mesh.
    pub layer: i32,
    pub has_ip: bool,
    pub current_channel: u8,
    pub mesh_id: [u8; 6],
    pub sta_netif: Option<usize>,
    pub ap_netif: Option<usize>,
}

/// Whether `r` is the runtime state of a node that has not joined anything.
pub open spec fn runtime_is_fresh(r: RuntimeState) -> bool {
    &&& !r.is_root
    &&& r.layer == -1
    &&& !r.has_ip
    &&& r.current_channel == 0
    &&& r.mesh_id@ == seq![0u8, 0u8, 0u8, 0u8, 0u8, 0u8]
    &&& r.sta_netif is None
    &&& r.ap_netif is None
}

impl RuntimeState {
    /// The runtime state of a node that has not joined anything.
    pub fn new() -> (r: Self)
        ensures
            runtime_is_fresh(r),
    {
        let r = RuntimeState {
            is_root: false,
            layer: -1,
            has_ip: false,
            current_channel: 0,
            mesh_id: [0u8; 6],
            sta_netif: None,
            ap_netif: None,
        };
        assert(r.mesh_id@ =~= seq![0u8, 0u8, 0u8, 0u8, 0u8, 0u8]);
        r
    }

    /// A copy of the runtime state held in `state`.
    pub fn get(state: &Option<StateContainer>) -> (r: Self)
        requires
            state is Some,
        ensures
            r == state->0.runtime,
    {
        match state {
            Some(c) => c.runtime,
            None => RuntimeState::new(),
        }
    }

    /// Replaces the runtime state held in `state`.
    pub fn set(state: &mut Option<StateContainer>, new_state: RuntimeState)
        requires
            (*old(state)) is Some,
        ensures
            (*final(state)) is Some,
            (*final(state))->0 == (StateContainer { runtime: new_state, ..(*old(state))->0 }),
    {
        if let Some(c) = state {
            c.runtime = new_state;
        }
    }
}

/// Bookkeeping of the update in progress.
pub struct OtaRuntimeData {
    pub progress: u32,
    pub total_size: u32,
    pub firmware_url: Option<String>,
    pub chunks: Vec<FirmwareChunk>,
    pub received_chunks_buffer: HashMap<u32, FirmwareChunk>,
    pub next_expected_sequence: u32,
    pub total_chunks: u32,
    pub target_version: Option<String>,
}

/// Whether update bookkeeping is in its initial state.
pub open spec fn ota_data_is_fresh(d: OtaRuntimeData) -> bool {
    &&& d.progress == 0
    &&& d.total_size == 0
    &&& d.firmware_url is None
    &&& d.chunks@.len() == 0
    &&& d.received_chunks_buffer@ == Map::<u32, FirmwareChunk>::empty()
    &&& d.next_expected_sequence == 0
    &&& d.total_chunks == 0
    &&& d.target_version is None
}

impl OtaRuntimeData {
    /// Bookkeeping with no update in progress.
    pub fn new() -> (d: Self)
        ensures
            ota_data_is_fresh(d),
    {
        OtaRuntimeData {
            progress: 0,
            total_size: 0,
            firmware_url: None,
            chunks: Vec::new(),
            received_chunks_buffer: HashMap::new(),
            next_expected_sequence: 0,
            total_chunks: 0,
            target_version: None,
        }
    }
}

/// The node's state, with the typestate kept as values.
pub struct StateContainer {
    pub runtime: RuntimeState,
    pub wifi_mode: WifiModeRuntime,
    pub mesh_state: MeshStateRuntime,
    pub scan_state: ScanStateRuntime,
    pub ota_state: OtaStateRuntime,
    pub ota_data: OtaRuntimeData,
}

impl StateContainer {
    /// A container with the given state and no update bookkeeping.
    pub fn new(
        runtime: RuntimeState,
        wifi_mode: WifiModeRuntime,
        mesh_state: MeshStateRuntime,
        scan_state: ScanStateRuntime,
        ota_state: OtaStateRuntime,
    ) -> (c: Self)
        ensures
            c.runtime == runtime,
            c.wifi_mode == wifi_mode,
            c.mesh_state == mesh_state,
            c.scan_state == scan_state,
            c.ota_state == ota_state,
            ota_data_is_fresh(c.ota_data),
    {
        StateContainer {
            runtime,
            wifi_mode,
            mesh_state,
            scan_state,
            ota_state,
            ota_data: OtaRuntimeData::new(),
        }
    }

    pub fn is_root(&self) -> (r: bool)
        ensures
            r == self.runtime.is_root,
    {
        self.runtime.is_root
    }

    pub fn layer(&self) -> (r: i32)
        ensures
            r == self.runtime.layer,
    {
        self.runtime.layer
    }

    pub fn has_ip(&self) -> (r: bool)
        ensures
            r == self.runtime.has_ip,
    {
        self.runtime.has_ip
    }

    pub fn channel(&self) -> (r: u8)
        ensures
            r == self.runtime.current_channel,
    {
        self.runtime.current_channel
    }

    pub fn mesh_id(&self) -> (r: [u8; 6])
        ensures
            r == self.runtime.mesh_id,
    {
        self.runtime.mesh_id
    }

    pub fn sta_netif(&self) -> (r: Option<usize>)
        ensures
            r == self.runtime.sta_netif,
    {
        self.runtime.sta_netif
    }

    pub fn ap_netif(&self) -> (r: Option<usize>)
        ensures
            r == self.runtime.ap_netif,
    {
        self.runtime.ap_netif
    }

    /// Takes in what the mesh stack reports about root status and layer.
    pub fn refresh_from_mesh(&mut self, is_root: bool, layer: i32)
        ensures
            final(self).runtime == (RuntimeState { is_root, layer, ..old(self).runtime }),
            final(self).wifi_mode == old(self).wifi_mode,
            final(self).mesh_state == old(self).mesh_state,
            final(self).scan_state == old(self).scan_state,
            final(self).ota_state == old(self).ota_state,
            final(self).ota_data == old(self).ota_data,
    {
        self.runtime.is_root = is_root;
        self.runtime.layer = layer;
    }

    pub fn set_has_ip(&mut self, has_ip: bool)
        ensures
            final(self).runtime == (RuntimeState { has_ip, ..old(self).runtime }),
            final(self).wifi_mode == old(self).wifi_mode,
            final(self).mesh_state == old(self).mesh_state,
            final(self).scan_state == old(self).scan_state,
            final(self).ota_state == old(self).ota_state,
            final(self).ota_data == old(self).ota_data,
    {
        self.runtime.has_ip = has_ip;
    }

    pub fn set_is_root(&mut self, is_root: bool)
        ensures
            final(self).runtime == (RuntimeState { is_root, ..old(self).runtime }),
            final(self).wifi_mode == old(self).wifi_mode,
            final(self).mesh_state == old(self).mesh_state,
            final(self).scan_state == old(self).scan_state,
            final(self).ota_state == old(self).ota_state,
            final(self).ota_data == old(self).ota_data,
    {
        self.runtime.is_root = is_root;
    }

    pub fn ota_state(&self) -> (r: OtaStateRuntime)
        ensures
            r == self.ota_state,
    {
        self.ota_state
    }

    pub fn ota_data(&self) -> (r: &OtaRuntimeData)
        ensures
            *r == self.ota_data,
    {
        &self.ota_data
    }

    pub fn ota_data_mut(&mut self) -> (r: &mut OtaRuntimeData)
        ensures
            *r == old(self).ota_data,
            final(self).ota_data == *final(r),
            final(self).runtime == old(self).runtime,
            final(self).ota_state == old(self).ota_state,
            final(self).wifi_mode == old(self).wifi_mode,
            final(self).mesh_state == old(self).mesh_state,
            final(self).scan_state == old(self).scan_state,
    {
        &mut self.ota_data
    }
}

/// Whether the node is root; false before the state exists.
pub fn is_root(state: &Option<StateContainer>) -> (r: bool)
    ensures
        r == (state is Some && state->0.runtime.is_root),
{
    match state {
        Some(c) => c.is_root(),
        None => false,
    }
}

/// Whether the node has an IP address; false before the state exists.
pub fn has_ip(state: &Option<StateContainer>) -> (r: bool)
    ensures
        r == (state is Some && state->0.runtime.has_ip),
{
    match state {
        Some(c) => c.has_ip(),
        None => false,
    }
}

/// The node's mesh layer; -1 before the state exists.
pub fn layer(state: &Option<StateContainer>) -> (r: i32)
    ensures
        r == if state is Some {
            state->0.runtime.layer
        } else {
            -1i32
        },
{
    match state {
        Some(c) => c.layer(),
        None => -1,
    }
}

/// The node's state machine; the type parameters are its WiFi mode, mesh
/// state, scan state and update state.
pub struct WifiMeshState<W, M, S, O> {
    pub _wifi_mode: PhantomData<W>,
    pub _mesh_state: PhantomData<M>,
    pub _scan_state: PhantomData<S>,
    pub _ota_state: PhantomData<O>,
}

/// A container that is present changes only in the listed way; an absent
/// one stays absent.
pub open spec fn updated(
    old: Option<StateContainer>,
    new: Option<StateContainer>,
    f: spec_fn(StateContainer) -> bool,
) -> bool {
    match old {
        None => new is None,
        Some(o) => new is Some && f(new->0),
    }
}

fn next_state<W, M, S, O>() -> (s: WifiMeshState<W, M, S, O>) {
    WifiMeshState {
        _wifi_mode: PhantomData,
        _mesh_state: PhantomData,
        _scan_state: PhantomData,
        _ota_state: PhantomData,
    }
}

impl WifiMeshState<Uninitialized, MeshInactive, NotScanning, OtaIdle> {
    /// The state machine before WiFi is brought up.
    pub fn new() -> (s: Self) {
        next_state()
    }

    /// WiFi is up in station mode: the state container is created.
    pub fn initialize_wifi(self, state: &mut Option<StateContainer>) -> (s: WifiMeshState<
        Sta,
        MeshInactive,
        NotScanning,
        OtaIdle,
    >)
        ensures
            (*final(state)) is Some,
            runtime_is_fresh((*final(state))->0.runtime),
            (*final(state))->0.wifi_mode == WifiModeRuntime::Sta,
            (*final(state))->0.mesh_state == MeshStateRuntime::Inactive,
            (*final(state))->0.scan_state == ScanStateRuntime::NotScanning,
            (*final(state))->0.ota_state == OtaStateRuntime::Idle,
            ota_data_is_fresh((*final(state))->0.ota_data),
    {
        let container = StateContainer::new(
            RuntimeState::new(),
            WifiModeRuntime::Sta,
            MeshStateRuntime::Inactive,
            ScanStateRuntime::NotScanning,
            OtaStateRuntime::Idle,
        );
        *state = Some(container);
        next_state()
    }
}

impl<M, S, O> WifiMeshState<Sta, M, S, O> {
    /// Station mode becomes station plus access point.
    pub fn set_staap_mode(self, state: &mut Option<StateContainer>) -> (s: WifiMeshState<
        StaAp,
        M,
        S,
        O,
    >)
        ensures
            updated(
                *old(state),
                *final(state),
                |c: StateContainer|
                    c == (StateContainer { wifi_mode: WifiModeRuntime::StaAp, ..(*old(state))->0 }),
            ),
    {
        if let Some(c) = state {
            c.wifi_mode = WifiModeRuntime::StaAp;
        }
        next_state()
    }
}

impl<M, S, O> WifiMeshState<StaAp, M, S, O> {
    /// Station plus access point becomes station mode only.
    pub fn set_sta_mode(self, state: &mut Option<StateContainer>) -> (s: WifiMeshState<
        Sta,
        M,
        S,
        O,
    >)
        ensures
            updated(
                *old(state),
                *final(state),
                |c: StateContainer|
                    c == (StateContainer { wifi_mode: WifiModeRuntime::Sta, ..(*old(state))->0 }),
            ),
    {
        if let Some(c) = state {
            c.wifi_mode = WifiModeRuntime::Sta;
        }
        next_state()
    }
}

/// Mesh settings.
pub struct MeshConfig {
    pub mesh_id: [u8; 6],
    pub channel: u8,
    pub router_ssid: String,
    pub router_password: String,
    pub max_connections: u8,
}

/// A container after the mesh started self-organised with `config`.
pub open spec fn mesh_started(o: StateContainer, c: StateContainer, config: MeshConfig) -> bool {
    c == (StateContainer {
        runtime: RuntimeState {
            mesh_id: config.mesh_id,
            current_channel: config.channel,
            ..o.runtime
        },
        mesh_state: MeshStateRuntime::SelfOrganized,
        ..o
    })
}

impl<O> WifiMeshState<StaAp, MeshInactive, NotScanning, O> {
    /// The mesh started and organises itself.
    pub fn start_mesh(self, state: &mut Option<StateContainer>, config: MeshConfig) -> (s:
        WifiMeshState<StaAp, MeshSelfOrganized, NotScanning, OtaIdle>)
        requires
            (*old(state)) is Some,
        ensures
            (*final(state)) is Some,
            mesh_started((*old(state))->0, (*final(state))->0, config),
    {
        if let Some(c) = state {
            c.runtime.mesh_id = config.mesh_id;
            c.runtime.current_channel = config.channel;
            c.mesh_state = MeshStateRuntime::SelfOrganized;
        }
        next_state()
    }
}

impl<O> WifiMeshState<Sta, MeshInactive, NotScanning, O> {
    /// Station mode becomes station plus access point and the mesh starts.
    pub fn start_mesh(self, state: &mut Option<StateContainer>, config: MeshConfig) -> (s:
        WifiMeshState<StaAp, MeshSelfOrganized, NotScanning, OtaIdle>)
        requires
            (*old(state)) is Some,
        ensures
            (*final(state)) is Some,
            mesh_started(
                StateContainer { wifi_mode: WifiModeRuntime::StaAp, ..(*old(state))->0 },
                (*final(state))->0,
                config,
            ),
    {
        let staap = self.set_staap_mode(state);
        staap.start_mesh(state, config)
    }
}

/// A container after the mesh stopped: not root, no layer, mesh inactive.
pub open spec fn mesh_stopped(o: StateContainer, c: StateContainer) -> bool {
    c == (StateContainer {
        runtime: RuntimeState { is_root: false, layer: -1i32, ..o.runtime },
        mesh_state: MeshStateRuntime::Inactive,
        ..o
    })
}

impl<O> WifiMeshState<StaAp, MeshSelfOrganized, NotScanning, O> {
    /// Self-organisation is switched off for WiFi work.
    pub fn disable_self_organized(self, state: &mut Option<StateContainer>) -> (s: WifiMeshState<
        StaAp,
        MeshActive,
        NotScanning,
        OtaIdle,
    >)
        ensures
            updated(
                *old(state),
                *final(state),
                |c: StateContainer|
                    c == (StateContainer { mesh_state: MeshStateRuntime::Active, ..(*old(state))->0 }),
            ),
    {
        if let Some(c) = state {
            c.mesh_state = MeshStateRuntime::Active;
        }
        next_state()
    }

    /// The mesh stops.
    pub fn stop_mesh(self, state: &mut Option<StateContainer>) -> (s: WifiMeshState<
        StaAp,
        MeshInactive,
        NotScanning,
        OtaIdle,
    >)
        requires
            (*old(state)) is Some,
        ensures
            (*final(state)) is Some,
            mesh_stopped((*old(state))->0, (*final(state))->0),
    {
        if let Some(c) = state {
            c.runtime.is_root = false;
            c.runtime.layer = -1;
            c.mesh_state = MeshStateRuntime::Inactive;
        }
        next_state()
    }
}

impl<O> WifiMeshState<StaAp, MeshActive, NotScanning, O> {
    /// Self-organisation is switched back on.
    pub fn enable_self_organized(self, state: &mut Option<StateContainer>) -> (s: WifiMeshState<
        StaAp,
        MeshSelfOrganized,
        NotScanning,
        OtaIdle,
    >)
        ensures
            updated(
                *old(state),
                *final(state),
                |c: StateContainer|
                    c == (StateContainer {
                        mesh_state: MeshStateRuntime::SelfOrganized,
                        ..(*old(state))->0
                    }),
            ),
    {
        if let Some(c) = state {
            c.mesh_state = MeshStateRuntime::SelfOrganized;
        }
        next_state()
    }

    /// The mesh stops.
    pub fn stop_mesh(self, state: &mut Option<StateContainer>) -> (s: WifiMeshState<
        StaAp,
        MeshInactive,
        NotScanning,
        OtaIdle,
    >)
        requires
            (*old(state)) is Some,
        ensures
            (*final(state)) is Some,
            mesh_stopped((*old(state))->0, (*final(state))->0),
    {
        if let Some(c) = state {
            c.runtime.is_root = false;
            c.runtime.layer = -1;
            c.mesh_state = MeshStateRuntime::Inactive;
        }
        next_state()
    }
}

/// A container with its update state set to `st`.
pub open spec fn with_ota_state(o: StateContainer, st: OtaStateRuntime) -> StateContainer {
    StateContainer { ota_state: st, ..o }
}

/// A container whose update was called off: idle, bookkeeping cleared.
pub open spec fn ota_cancelled(o: StateContainer, c: StateContainer) -> bool {
    &&& c.ota_state == OtaStateRuntime::Idle
    &&& ota_data_is_fresh(c.ota_data)
    &&& c.runtime == o.runtime
    &&& c.wifi_mode == o.wifi_mode
    &&& c.mesh_state == o.mesh_state
    &&& c.scan_state == o.scan_state
}

fn cancel_in(state: &mut Option<StateContainer>)
    ensures
        match *old(state) {
            None => (*final(state)) is None,
            Some(o) => (*final(state)) is Some && ota_cancelled(o, (*final(state))->0),
        },
{
    if let Some(c) = state {
        c.ota_state = OtaStateRuntime::Idle;
        c.ota_data = OtaRuntimeData::new();
    }
}

fn set_ota_in(state: &mut Option<StateContainer>, st: OtaStateRuntime)
    ensures
        match *old(state) {
            None => (*final(state)) is None,
            Some(o) => *final(state) == Some(with_ota_state(o, st)),
        },
{
    if let Some(c) = state {
        c.ota_state = st;
    }
}

impl<W, M, S> WifiMeshState<W, M, S, OtaIdle> {
    /// Root: the download of `version` (`firmware_size` bytes from
    /// `firmware_url`) begins.
    pub fn begin_ota_download(
        self,
        state: &mut Option<StateContainer>,
        firmware_url: String,
        firmware_size: u32,
        version: String,
    ) -> (s: WifiMeshState<W, M, S, OtaDownloading>)
        ensures
            match *old(state) {
                None => (*final(state)) is None,
                Some(o) => (*final(state)) is Some && ({
                    let c = (*final(state))->0;
                    &&& c.ota_state == OtaStateRuntime::Downloading
                    &&& c.ota_data.firmware_url == Some(firmware_url)
                    &&& c.ota_data.total_size == firmware_size
                    &&& c.ota_data.progress == 0
                    &&& c.ota_data.target_version == Some(version)
                    &&& c.ota_data.chunks == o.ota_data.chunks
                    &&& c.ota_data.received_chunks_buffer == o.ota_data.received_chunks_buffer
                    &&& c.ota_data.next_expected_sequence == o.ota_data.next_expected_sequence
                    &&& c.ota_data.total_chunks == o.ota_data.total_chunks
                    &&& c.runtime == o.runtime
                    &&& c.wifi_mode == o.wifi_mode
                    &&& c.mesh_state == o.mesh_state
                    &&& c.scan_state == o.scan_state
                }),
            },
    {
        if let Some(c) = state {
            c.ota_state = OtaStateRuntime::Downloading;
            c.ota_data.firmware_url = Some(firmware_url);
            c.ota_data.total_size = firmware_size;
            c.ota_data.progress = 0;
            c.ota_data.target_version = Some(version);
        }
        next_state()
    }

    /// Child: reception of `total_chunks` chunks (`firmware_size` bytes)
    /// begins with nothing received.
    pub fn begin_ota_reception(
        self,
        state: &mut Option<StateContainer>,
        total_chunks: u32,
        firmware_size: u32,
    ) -> (s: WifiMeshState<W, M, S, OtaReceiving>)
        ensures
            match *old(state) {
                None => (*final(state)) is None,
                Some(o) => (*final(state)) is Some && ({
                    let c = (*final(state))->0;
                    &&& c.ota_state == OtaStateRuntime::Receiving
                    &&& c.ota_data.total_chunks == total_chunks
                    &&& c.ota_data.total_size == firmware_size
                    &&& c.ota_data.progress == 0
                    &&& c.ota_data.next_expected_sequence == 0
                    &&& c.ota_data.received_chunks_buffer@ == Map::<u32, FirmwareChunk>::empty()
                    &&& c.ota_data.firmware_url == o.ota_data.firmware_url
                    &&& c.ota_data.target_version == o.ota_data.target_version
                    &&& c.ota_data.chunks == o.ota_data.chunks
                    &&& c.runtime == o.runtime
                    &&& c.wifi_mode == o.wifi_mode
                    &&& c.mesh_state == o.mesh_state
                    &&& c.scan_state == o.scan_state
                }),
            },
    {
        if let Some(c) = state {
            c.ota_state = OtaStateRuntime::Receiving;
            c.ota_data.total_chunks = total_chunks;
            c.ota_data.total_size = firmware_size;
            c.ota_data.progress = 0;
            c.ota_data.next_expected_sequence = 0;
            c.ota_data.received_chunks_buffer.clear();
        }
        next_state()
    }
}

impl<W, M, S> WifiMeshState<W, M, S, OtaDownloading> {
    /// Root: the image is downloaded; it is cut into chunks tagged with the
    /// target version (or `unknown`) and distribution begins.
    pub fn complete_download(self, state: &mut Option<StateContainer>, firmware_data: Vec<u8>) -> (s:
        WifiMeshState<W, M, S, OtaDistributing>)
        requires
            chunk_count(firmware_data@.len()) <= u32::MAX,
        ensures
            match *old(state) {
                None => (*final(state)) is None,
                Some(o) => (*final(state)) is Some && ({
                    let c = (*final(state))->0;
                    let n = chunk_count(firmware_data@.len());
                    let version = match o.ota_data.target_version {
                        Some(v) => v@,
                        None => seq!['u', 'n', 'k', 'n', 'o', 'w', 'n'],
                    };
                    &&& c.ota_state == OtaStateRuntime::Distributing
                    &&& c.ota_data.total_chunks == n
                    &&& c.ota_data.chunks@.len() == n
                    &&& forall|i: int|
                        0 <= i < n ==> {
                            &&& (#[trigger] c.ota_data.chunks@[i]).sequence == i
                            &&& c.ota_data.chunks@[i].total_chunks == n
                            &&& c.ota_data.chunks@[i].version@ == version
                            &&& c.ota_data.chunks@[i].data@ == chunk_bytes(firmware_data@, i)
                            &&& chunk_is_valid(c.ota_data.chunks@[i])
                        }
                    &&& c.runtime == o.runtime
                    &&& c.wifi_mode == o.wifi_mode
                    &&& c.mesh_state == o.mesh_state
                    &&& c.scan_state == o.scan_state
                }),
            },
    {
        let version: String = match state {
            Some(c) => match &c.ota_data.target_version {
                Some(v) => v.clone(),
                None => {
                    let u = String::from_str("unknown");
                    proof {
                        reveal_strlit("unknown");
                    }
                    u
                },
            },
            None => String::new(),
        };
        let chunks = fragment_firmware(&firmware_data, &version);
        let total: u32 = chunks.len() as u32;
        if let Some(c) = state {
            c.ota_state = OtaStateRuntime::Distributing;
            c.ota_data.chunks = chunks;
            c.ota_data.total_chunks = total;
        }
        next_state()
    }

    /// The download is called off.
    pub fn cancel_ota(self, state: &mut Option<StateContainer>) -> (s: WifiMeshState<
        W,
        M,
        S,
        OtaIdle,
    >)
        ensures
            match *old(state) {
                None => (*final(state)) is None,
                Some(o) => (*final(state)) is Some && ota_cancelled(o, (*final(state))->0),
            },
    {
        cancel_in(state);
        next_state()
    }
}

impl<W, M, S> WifiMeshState<W, M, S, OtaDistributing> {
    /// Root: every node holds the image; reboot next.
    pub fn complete_distribution(self, state: &mut Option<StateContainer>) -> (s: WifiMeshState<
        W,
        M,
        S,
        OtaReadyToReboot,
    >)
        ensures
            match *old(state) {
                None => (*final(state)) is None,
                Some(o) => *final(state) == Some(with_ota_state(o, OtaStateRuntime::ReadyToReboot)),
            },
    {
        set_ota_in(state, OtaStateRuntime::ReadyToReboot);
        next_state()
    }

    /// The distribution is called off.
    pub fn cancel_ota(self, state: &mut Option<StateContainer>) -> (s: WifiMeshState<
        W,
        M,
        S,
        OtaIdle,
    >)
        ensures
            match *old(state) {
                None => (*final(state)) is None,
                Some(o) => (*final(state)) is Some && ota_cancelled(o, (*final(state))->0),
            },
    {
        cancel_in(state);
        next_state()
    }
}

impl<W, M, S> WifiMeshState<W, M, S, OtaReceiving> {
    /// Child: every chunk arrived and checked out; reboot next.
    pub fn complete_reception(self, state: &mut Option<StateContainer>) -> (s: WifiMeshState<
        W,
        M,
        S,
        OtaReadyToReboot,
    >)
        ensures
            match *old(state) {
                None => (*final(state)) is None,
                Some(o) => *final(state) == Some(with_ota_state(o, OtaStateRuntime::ReadyToReboot)),
            },
    {
        set_ota_in(state, OtaStateRuntime::ReadyToReboot);
        next_state()
    }

    /// The reception is called off.
    pub fn cancel_ota(self, state: &mut Option<StateContainer>) -> (s: WifiMeshState<
        W,
        M,
        S,
        OtaIdle,
    >)
        ensures
            match *old(state) {
                None => (*final(state)) is None,
                Some(o) => (*final(state)) is Some && ota_cancelled(o, (*final(state))->0),
            },
    {
        cancel_in(state);
        next_state()
    }
}

impl<W, M, S> WifiMeshState<W, M, S, OtaReadyToReboot> {
    /// The update is called off before the reboot.
    pub fn cancel_ota(self, state: &mut Option<StateContainer>) -> (s: WifiMeshState<
        W,
        M,
        S,
        OtaIdle,
    >)
        ensures
            match *old(state) {
                None => (*final(state)) is None,
                Some(o) => (*final(state)) is Some && ota_cancelled(o, (*final(state))->0),
            },
    {
        cancel_in(state);
        next_state()
    }
}

impl<W, M, S> WifiMeshState<W, M, S, OtaActive> {
    /// The update ends, whether it worked or not.
    pub fn finish_ota(self, state: &mut Option<StateContainer>) -> (s: WifiMeshState<
        W,
        M,
        S,
        OtaIdle,
    >)
        ensures
            match *old(state) {
                None => (*final(state)) is None,
                Some(o) => *final(state) == Some(with_ota_state(o, OtaStateRuntime::Idle)),
            },
    {
        set_ota_in(state, OtaStateRuntime::Idle);
        next_state()
    }

    /// An update is running, in this state always.
    pub fn is_ota_active(&self) -> (r: bool)
        ensures
            r,
    {
        true
    }
}

} // verus!
