//! Mesh clock of an ESP-NOW node: the root's clock is the mesh clock; every
//! other node keeps a smoothed offset from the root's beacons.

use vstd::prelude::*;
use crate::bounded::payload_bytes;
use crate::mesh_protocol::{MeshPacket, PacketType, TimeSyncBeacon};

verus! {

/// Assumed one-way delay of a beacon, in microseconds.
pub const ESTIMATED_ONE_WAY_DELAY_US: i64 = 5000;

/// How long a beacon keeps the clock synchronised, in microseconds.
pub const SYNC_VALIDITY_US: u64 = 10_000_000;

/// Integer division rounding toward zero, as Rust divides signed numbers.
pub open spec fn div_toward_zero(a: int, b: int) -> int {
    if a >= 0 {
        a / b
    } else {
        -((-a) / b)
    }
}

/// The offset a beacon received at local time `rx_us` implies: local time
/// minus the root's send time plus the assumed delay.
pub open spec fn beacon_offset(beacon: TimeSyncBeacon, rx_us: u64) -> int {
    (rx_us as i64) - ((beacon.root_timestamp as i64) + ESTIMATED_ONE_WAY_DELAY_US)
}

/// The mathematical content of a `TimeSync`.
pub struct TimeSyncView {
    pub offset_us: i64,
    pub last_sync: Option<u64>,
    pub last_sync_sequence: u32,
    pub is_root: bool,
}

/// The node's synchronisation state. Times are local microseconds.
pub struct TimeSync {
    offset_us: i64,
    last_sync_instant: Option<u64>,
    last_sync_sequence: u32,
    is_root: bool,
}

impl View for TimeSync {
    type V = TimeSyncView;

    closed spec fn view(&self) -> TimeSyncView {
        TimeSyncView {
            offset_us: self.offset_us,
            last_sync: self.last_sync_instant,
            last_sync_sequence: self.last_sync_sequence,
            is_root: self.is_root,
        }
    }
}

/// Whether `beacon` would be taken by a node in state `v`.
pub open spec fn beacon_accepted(v: TimeSyncView, beacon: TimeSyncBeacon) -> bool {
    !v.is_root && beacon.sequence > v.last_sync_sequence
}

/// Whether taking `beacon` at `rx_us` stays within 64-bit arithmetic.
pub open spec fn beacon_in_range(v: TimeSyncView, beacon: TimeSyncBeacon, rx_us: u64) -> bool {
    &&& (beacon.root_timestamp as i64) + ESTIMATED_ONE_WAY_DELAY_US <= i64::MAX
    &&& i64::MIN <= beacon_offset(beacon, rx_us) <= i64::MAX
    &&& v.last_sync is Some ==> i64::MIN <= v.offset_us * 7 <= i64::MAX
    &&& v.last_sync is Some ==> i64::MIN <= beacon_offset(beacon, rx_us) * 3 <= i64::MAX
    &&& v.last_sync is Some ==> i64::MIN <= v.offset_us * 7 + beacon_offset(beacon, rx_us) * 3
        <= i64::MAX
}

/// The offset after taking `beacon`: the first beacon's offset is taken as
/// it is, later ones are blended in at 30 %.
pub open spec fn smoothed_offset(v: TimeSyncView, beacon: TimeSyncBeacon, rx_us: u64) -> int {
    if v.last_sync is Some {
        div_toward_zero(v.offset_us * 7 + beacon_offset(beacon, rx_us) * 3, 10)
    } else {
        beacon_offset(beacon, rx_us)
    }
}

/// A node's state after a beacon received at `rx_us`: unchanged unless the
/// beacon is taken, in which case the offset is smoothed and the beacon
/// recorded.
pub open spec fn after_beacon(v: TimeSyncView, beacon: TimeSyncBeacon, rx_us: u64) -> TimeSyncView {
    if beacon_accepted(v, beacon) {
        TimeSyncView {
            offset_us: smoothed_offset(v, beacon, rx_us) as i64,
            last_sync: Some(rx_us),
            last_sync_sequence: beacon.sequence,
            is_root: false,
        }
    } else {
        v
    }
}

impl TimeSync {
    /// A node that has heard no beacon yet.
    pub fn new(is_root: bool) -> (r: Self)
        ensures
            r@ == (TimeSyncView {
                offset_us: 0,
                last_sync: None,
                last_sync_sequence: 0,
                is_root,
            }),
    {
        TimeSync { offset_us: 0, last_sync_instant: None, last_sync_sequence: 0, is_root }
    }

    /// Mesh time at local time `local_us`: the local time on the root,
    /// the local time less the offset elsewhere.
    pub fn now_us(&self, local_us: u64) -> (r: u64)
        requires
            !self@.is_root ==> i64::MIN <= (local_us as i64) - self@.offset_us <= i64::MAX,
        ensures
            self@.is_root ==> r == local_us,
            !self@.is_root ==> r == ((local_us as i64) - self@.offset_us) as u64,
    {
        if self.is_root {
            local_us
        } else {
            ((local_us as i64) - self.offset_us) as u64
        }
    }

    /// Takes a beacon received at local time `rx_us`. The root, and a beacon
    /// not newer than the last one taken, change nothing.
    pub fn handle_sync_beacon(&mut self, beacon: &TimeSyncBeacon, rx_us: u64)
        requires
            beacon_accepted(old(self)@, *beacon) ==> beacon_in_range(old(self)@, *beacon, rx_us),
        ensures
            final(self)@ == after_beacon(old(self)@, *beacon, rx_us),
    {
        if self.is_root {
            return;
        }
        if beacon.sequence <= self.last_sync_sequence {
            return;
        }
        let local_rx_us: i64 = rx_us as i64;
        let root_tx_us: i64 = beacon.root_timestamp as i64;
        let new_offset: i64 = local_rx_us - (root_tx_us + ESTIMATED_ONE_WAY_DELAY_US);
        if self.last_sync_instant.is_some() {
            let blended: i64 = self.offset_us * 7 + new_offset * 3;
            self.offset_us = blended / 10;
        } else {
            self.offset_us = new_offset;
        }
        self.last_sync_instant = Some(rx_us);
        self.last_sync_sequence = beacon.sequence;
    }

    /// Whether taking `beacon` at `rx_us` stays within 64-bit arithmetic (or
    /// the beacon would not be taken at all).
    pub fn beacon_fits(&self, beacon: &TimeSyncBeacon, rx_us: u64) -> (r: bool)
        ensures
            r == (beacon_accepted(self@, *beacon) ==> beacon_in_range(self@, *beacon, rx_us)),
    {
        if self.is_root || beacon.sequence <= self.last_sync_sequence {
            return true;
        }
        let rx: i128 = (rx_us as i64) as i128;
        let sent: i128 = (beacon.root_timestamp as i64) as i128 + 5000;
        if sent > 0x7fff_ffff_ffff_ffff {
            return false;
        }
        let offset: i128 = rx - sent;
        if offset < -0x8000_0000_0000_0000 || offset > 0x7fff_ffff_ffff_ffff {
            return false;
        }
        if self.last_sync_instant.is_some() {
            let old_part: i128 = (self.offset_us as i128) * 7;
            let new_part: i128 = offset * 3;
            if old_part < -0x8000_0000_0000_0000 || old_part > 0x7fff_ffff_ffff_ffff {
                return false;
            }
            if new_part < -0x8000_0000_0000_0000 || new_part > 0x7fff_ffff_ffff_ffff {
                return false;
            }
            let blended: i128 = old_part + new_part;
            if blended < -0x8000_0000_0000_0000 || blended > 0x7fff_ffff_ffff_ffff {
                return false;
            }
        }
        true
    }

    /// Whether the clock counts as synchronised at local time `now_us`: always
    /// on the root, elsewhere within ten seconds of the last beacon taken.
    pub fn is_synced(&self, now_us: u64) -> (r: bool)
        requires
            self@.last_sync is Some ==> self@.last_sync->0 <= now_us,
        ensures
            r == (self@.is_root || (self@.last_sync is Some && now_us - self@.last_sync->0
                < SYNC_VALIDITY_US)),
    {
        if self.is_root {
            return true;
        }
        match self.last_sync_instant {
            Some(last_sync) => now_us - last_sync < SYNC_VALIDITY_US,
            None => false,
        }
    }

    /// Makes this node the root (its offset returns to 0) or a plain node.
    pub fn set_root(&mut self, is_root: bool)
        ensures
            final(self)@ == (TimeSyncView {
                is_root,
                offset_us: if is_root {
                    0
                } else {
                    old(self)@.offset_us
                },
                ..old(self)@
            }),
    {
        self.is_root = is_root;
        if is_root {
            self.offset_us = 0;
        }
    }
}

/// Mesh time at local time `local_us`; the local time while the node's clock
/// is not set up.
pub fn now_us(sync: &Option<TimeSync>, local_us: u64) -> (r: u64)
    requires
        sync is Some && !sync->0@.is_root ==> i64::MIN <= (local_us as i64) - sync->0@.offset_us
            <= i64::MAX,
    ensures
        sync is None ==> r == local_us,
        sync is Some && sync->0@.is_root ==> r == local_us,
        sync is Some && !sync->0@.is_root ==> r == ((local_us as i64) - sync->0@.offset_us) as u64,
{
    match sync {
        Some(ts) => ts.now_us(local_us),
        None => local_us,
    }
}

/// Passes a beacon received at local time `rx_us` to the node's clock, once
/// it is set up.
pub fn handle_sync_beacon(sync: &mut Option<TimeSync>, beacon: &TimeSyncBeacon, rx_us: u64)
    requires
        (*old(sync)) is Some && beacon_accepted(old(sync)->0@, *beacon) ==> beacon_in_range(
            old(sync)->0@,
            *beacon,
            rx_us,
        ),
    ensures
        (*old(sync)) is None ==> (*final(sync)) is None,
        (*old(sync)) is Some ==> (*final(sync)) is Some && final(sync)->0@ == after_beacon(
            old(sync)->0@,
            *beacon,
            rx_us,
        ),
{
    match sync {
        Some(ts) => ts.handle_sync_beacon(beacon, rx_us),
        None => {},
    }
}

/// Whether the node's clock counts as synchronised; not before it is set up.
pub fn is_synced(sync: &Option<TimeSync>, now_us: u64) -> (r: bool)
    requires
        sync is Some && sync->0@.last_sync is Some ==> sync->0@.last_sync->0 <= now_us,
    ensures
        sync is None ==> !r,
        sync is Some ==> r == (sync->0@.is_root || (sync->0@.last_sync is Some && now_us
            - sync->0@.last_sync->0 < SYNC_VALIDITY_US)),
{
    match sync {
        Some(ts) => ts.is_synced(now_us),
        None => false,
    }
}

/// Sets the node's root status, once its clock is set up.
pub fn set_root(sync: &mut Option<TimeSync>, is_root: bool)
    ensures
        (*old(sync)) is None ==> (*final(sync)) is None,
        (*old(sync)) is Some ==> (*final(sync)) is Some && final(sync)->0@ == (TimeSyncView {
            is_root,
            offset_us: if is_root {
                0
            } else {
                old(sync)->0@.offset_us
            },
            ..old(sync)->0@
        }),
{
    match sync {
        Some(ts) => ts.set_root(is_root),
        None => {},
    }
}

/// One tick of the root's beacon: what to send, and the next sequence number.
pub struct BeaconTick {
    /// The beacon to broadcast, if this node is the root.
    pub beacon: Option<TimeSyncBeacon>,
    pub next_sequence: u32,
}

/// A tick of the beacon task at root time `now_us`: a plain node sends
/// nothing; the root sends its time under the current sequence number, which
/// then advances (wrapping).
pub fn beacon_tick(is_root: bool, sequence: u32, now_us: u64) -> (r: BeaconTick)
    ensures
        !is_root ==> r.beacon is None && r.next_sequence == sequence,
        is_root ==> r.beacon == Some(TimeSyncBeacon { root_timestamp: now_us, sequence })
            && r.next_sequence == (if sequence == u32::MAX {
            0
        } else {
            sequence + 1
        }),
{
    if !is_root {
        return BeaconTick { beacon: None, next_sequence: sequence };
    }
    let beacon = TimeSyncBeacon { root_timestamp: now_us, sequence };
    BeaconTick { beacon: Some(beacon), next_sequence: sequence.wrapping_add(1) }
}

/// The broadcast packet that carries a beacon, with its encoded bytes as
/// payload.
pub fn beacon_packet(beacon: &TimeSyncBeacon, encoded: &[u8]) -> (p: MeshPacket)
    ensures
        p.hop_count == 0,
        p.packet_type == PacketType::TimeSync,
        p.timestamp == beacon.root_timestamp,
        p.source_mac@ == seq![0xFFu8, 0xFF, 0xFF, 0xFF, 0xFF, 0xFF],
        payload_bytes(p.payload) == encoded@.take(
            if encoded@.len() < 236 {
                encoded@.len() as int
            } else {
                236
            },
        ),
{
    let mut packet = MeshPacket::new(PacketType::TimeSync, beacon.root_timestamp, [0xFF; 6]);
    packet.append_payload(encoded);
    assert(packet.source_mac@ =~= seq![0xFFu8, 0xFF, 0xFF, 0xFF, 0xFF, 0xFF]);
    packet
}

} // verus!
