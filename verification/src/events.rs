//! What a node does with the events of the mesh, IP and WiFi stacks: keep
//! its state current and, when it becomes root, renew its DHCP lease.

use vstd::prelude::*;
use crate::mesh_state::{RuntimeState, StateContainer};

verus! {

/// An event of the mesh, IP or WiFi stack, with the facts the stack gave
/// along with it.
#[derive(Debug, Clone, Copy)]
pub enum MeshEvent {
    Started,
    Stopped,
    /// Connected to a parent; `is_root` and `layer` are the mesh stack's
    /// answers at that moment.
    ParentConnected { parent: Option<[u8; 6]>, is_root: bool, layer: i32 },
    ParentDisconnected { reason: Option<u8> },
    ChildConnected { mac: Option<[u8; 6]> },
    ChildDisconnected { mac: Option<[u8; 6]> },
    RootAddress,
    VoteStarted,
    VoteStopped,
    RootSwitchRequest,
    RootSwitchAck,
    /// The link to the outside network changed.
    TodsState { state: Option<i32>, is_root: bool },
    RootFixed { is_root: bool },
    NoParentFound,
    FindNetwork,
    RouterSwitch { bssid: Option<[u8; 6]>, channel: Option<u8> },
    OtherMesh { id: i32 },
    /// The station interface got an address (`ip`, `gateway`, `netmask`).
    StaGotIp { ip: Option<(u32, u32, u32)> },
    StaLostIp,
    OtherIp { id: i32 },
    Wifi { id: i32 },
}

/// What the caller is to do after an event.
#[derive(Debug, Clone, Copy, PartialEq, Eq, Structural)]
pub enum EventAction {
    /// Nothing.
    Nothing,
    /// Stop and restart the DHCP client on the station interface `netif`.
    RestartDhcp { netif: usize },
    /// The node is root but has no station interface to run DHCP on.
    DhcpUnavailable,
}

/// The state change an event calls for.
pub open spec fn event_effect(old: Option<StateContainer>, event: MeshEvent) -> Option<
    StateContainer,
> {
    match old {
        None => None,
        Some(c) => Some(
            match event {
                MeshEvent::ParentConnected { is_root, layer, .. } => StateContainer {
                    runtime: RuntimeState { is_root, layer, ..c.runtime },
                    ..c
                },
                MeshEvent::StaGotIp { .. } => StateContainer {
                    runtime: RuntimeState { has_ip: true, ..c.runtime },
                    ..c
                },
                MeshEvent::StaLostIp => StateContainer {
                    runtime: RuntimeState { has_ip: false, ..c.runtime },
                    ..c
                },
                _ => c,
            },
        ),
    }
}

/// The action an event calls for, given the state after it.
pub open spec fn event_action(new: Option<StateContainer>, event: MeshEvent) -> EventAction {
    match event {
        MeshEvent::ParentConnected { is_root, .. } => if !is_root {
            EventAction::Nothing
        } else {
            match new {
                Some(c) => match c.runtime.sta_netif {
                    Some(n) => EventAction::RestartDhcp { netif: n },
                    None => EventAction::DhcpUnavailable,
                },
                None => EventAction::DhcpUnavailable,
            }
        },
        _ => EventAction::Nothing,
    }
}

/// Handles one event: a parent connection refreshes root status and layer
/// and, on the root, asks for a fresh DHCP lease; gaining or losing the
/// station address updates the IP flag; everything else is only reported.
pub fn mesh_event_handler(state: &mut Option<StateContainer>, event: MeshEvent) -> (action:
    EventAction)
    ensures
        match (*old(state), *final(state)) {
            (None, None) => true,
            (Some(o), Some(n)) => n.runtime == event_effect(Some(o), event)->0.runtime
                && n.wifi_mode == o.wifi_mode && n.mesh_state == o.mesh_state && n.scan_state
                == o.scan_state && n.ota_state == o.ota_state && n.ota_data == o.ota_data,
            _ => false,
        },
        action == event_action(*final(state), event),
{
    match event {
        MeshEvent::ParentConnected { is_root, layer, .. } => {
            if let Some(c) = state {
                c.refresh_from_mesh(is_root, layer);
            }
            if !is_root {
                return EventAction::Nothing;
            }
            let netif = match state {
                Some(c) => c.sta_netif(),
                None => None,
            };
            match netif {
                Some(n) => EventAction::RestartDhcp { netif: n },
                None => EventAction::DhcpUnavailable,
            }
        },
        MeshEvent::StaGotIp { .. } => {
            if let Some(c) = state {
                c.set_has_ip(true);
            }
            EventAction::Nothing
        },
        MeshEvent::StaLostIp => {
            if let Some(c) = state {
                c.set_has_ip(false);
            }
            EventAction::Nothing
        },
        _ => EventAction::Nothing,
    }
}

/// The four octets of an IPv4 address held in network order in a `u32`,
/// first octet lowest.
pub fn ip_octets(addr: u32) -> (r: [u8; 4])
    ensures
        r@ == seq![
            (addr & 0xff) as u8,
            ((addr >> 8) & 0xff) as u8,
            ((addr >> 16) & 0xff) as u8,
            ((addr >> 24) & 0xff) as u8,
        ],
{
    let r: [u8; 4] = [
        (addr & 0xff) as u8,
        ((addr >> 8) & 0xff) as u8,
        ((addr >> 16) & 0xff) as u8,
        ((addr >> 24) & 0xff) as u8,
    ];
    assert(r@ =~= seq![
        (addr & 0xff) as u8,
        ((addr >> 8) & 0xff) as u8,
        ((addr >> 16) & 0xff) as u8,
        ((addr >> 24) & 0xff) as u8,
    ]);
    r
}

} // verus!
