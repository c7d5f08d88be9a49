//! Distance-to-root routing of an ESP-NOW node: a table of at most ten
//! neighbours in a `heapless` index map keyed by MAC address, kept in the
//! order they were first heard (a removed entry's place is taken by the last
//! one), from which the node's own distance and parent are derived.

use vstd::prelude::*;
use crate::bounded::{
    key_position, neighbor_keys, neighbor_map_insert, neighbor_map_len, neighbor_map_new,
    neighbor_map_remove, neighbor_map_values, neighbor_values, payload_bytes, payload_clone,
    swap_remove_at, NeighborMap,
};
use crate::mesh_protocol::{MeshPacket, PacketType, RoutingMessage};

verus! {

/// Most neighbours the table holds.
pub const MAX_NEIGHBORS: usize = 10;

/// Hop count from which a packet is no longer relayed.
pub const MAX_HOP_COUNT: u8 = 10;

/// Whole seconds of silence after which a neighbour is dropped.
pub const NEIGHBOR_EXPIRY_SECS: u64 = 30;

/// Distance that stands for "no route to the root".
pub const UNKNOWN_DISTANCE: u8 = 255;

/// What the node knows of one neighbour.
#[derive(Debug, Clone, Copy)]
pub struct Neighbor {
    pub mac: [u8; 6],
    /// Hops from the neighbour to the root (255: none known).
    pub distance_from_root: u8,
    /// Local time the neighbour was last heard, in microseconds.
    pub last_seen: u64,
    pub rssi: i8,
}

/// The mathematical content of a `RoutingTable`.
pub struct RoutingView {
    pub neighbors: Seq<Neighbor>,
    pub our_distance: u8,
    pub parent_mac: Option<[u8; 6]>,
    pub our_mac: [u8; 6],
}

/// The node's routing state.
pub struct RoutingTable {
    neighbors: NeighborMap,
    our_distance: u8,
    parent_mac: Option<[u8; 6]>,
    our_mac: [u8; 6],
}

impl View for RoutingTable {
    type V = RoutingView;

    closed spec fn view(&self) -> RoutingView {
        RoutingView {
            neighbors: neighbor_values(self.neighbors),
            our_distance: self.our_distance,
            parent_mac: self.parent_mac,
            our_mac: self.our_mac,
        }
    }
}

/// At most ten neighbours, no MAC address twice.
pub open spec fn table_wf(s: Seq<Neighbor>) -> bool {
    &&& s.len() <= MAX_NEIGHBORS
    &&& forall|i: int, j: int| 0 <= i < j < s.len() ==> s[i].mac@ != s[j].mac@
}

/// Position of the first neighbour with MAC address `m`, or -1.
pub open spec fn position_of(s: Seq<Neighbor>, m: Seq<u8>) -> int
    decreases s.len(),
{
    if s.len() == 0 {
        -1
    } else if position_of(s.drop_last(), m) >= 0 {
        position_of(s.drop_last(), m)
    } else if s.last().mac@ == m {
        s.len() - 1
    } else {
        -1
    }
}

/// The first neighbour in table order with the smallest known distance, as
/// MAC address and distance; `None` if no neighbour knows a route.
pub open spec fn best_neighbor(s: Seq<Neighbor>) -> Option<([u8; 6], u8)>
    decreases s.len(),
{
    if s.len() == 0 {
        None
    } else {
        let b = best_neighbor(s.drop_last());
        let n = s.last();
        if n.distance_from_root < UNKNOWN_DISTANCE && (b is None || n.distance_from_root < (b->0).1) {
            Some((n.mac, n.distance_from_root))
        } else {
            b
        }
    }
}

/// The node's distance and parent derived anew from its neighbours: the
/// root keeps distance 0; otherwise one more than the best neighbour's
/// distance (the parent changing only with the distance), or 255 and no
/// parent when no neighbour knows a route.
pub open spec fn recomputed(v: RoutingView) -> RoutingView {
    if v.our_distance == 0 {
        v
    } else {
        match best_neighbor(v.neighbors) {
            Some(best) => {
                let d: u8 = if best.1 == 255 {
                    255
                } else {
                    (best.1 + 1) as u8
                };
                if d != v.our_distance {
                    RoutingView { our_distance: d, parent_mac: Some(best.0), ..v }
                } else {
                    v
                }
            },
            None => if v.our_distance != UNKNOWN_DISTANCE {
                RoutingView { our_distance: UNKNOWN_DISTANCE, parent_mac: None, ..v }
            } else {
                v
            },
        }
    }
}

/// The table after hearing from `mac` at `now`, and whether that changed
/// the routes: a known neighbour is refreshed (a change only if its distance
/// changed); a new one is added if there is room.
pub open spec fn heard(s: Seq<Neighbor>, mac: [u8; 6], distance: u8, rssi: i8, now: u64) -> (
    Seq<Neighbor>,
    bool,
) {
    let p = position_of(s, mac@);
    if p >= 0 {
        (
            s.update(
                p,
                Neighbor { mac: s[p].mac, distance_from_root: distance, last_seen: now, rssi },
            ),
            s[p].distance_from_root != distance,
        )
    } else if s.len() < MAX_NEIGHBORS {
        (s.push(Neighbor { mac, distance_from_root: distance, last_seen: now, rssi }), true)
    } else {
        (s, false)
    }
}

/// Whether a neighbour last heard at `last_seen` has been silent for more
/// than 30 whole seconds at `now`.
pub open spec fn is_expired(n: Neighbor, now: u64) -> bool {
    (now - n.last_seen) / 1_000_000 > NEIGHBOR_EXPIRY_SECS
}

pub open spec fn expired_pred(now: u64) -> spec_fn(Neighbor) -> bool {
    |n: Neighbor| is_expired(n, now)
}

/// `s` without entry `p`, whose place the last entry takes.
pub open spec fn swap_removed(s: Seq<Neighbor>, p: int) -> Seq<Neighbor> {
    swap_remove_at(s, p)
}

/// The MAC addresses of `s`, in order.
pub open spec fn macs(s: Seq<Neighbor>) -> Seq<[u8; 6]> {
    s.map_values(|n: Neighbor| n.mac)
}

/// Looking a key up among the neighbours' own addresses finds the
/// neighbour `position_of` finds.
pub proof fn lemma_key_position(s: Seq<Neighbor>, m: Seq<u8>)
    ensures
        key_position(macs(s), m) == position_of(s, m),
    decreases s.len(),
{
    if s.len() > 0 {
        lemma_key_position(s.drop_last(), m);
        assert(macs(s).drop_last() =~= macs(s.drop_last()));
        assert(macs(s).last() == s.last().mac);
    }
}

/// Removing entry `p` from the neighbours removes it from their addresses.
pub proof fn lemma_macs_swap_removed(s: Seq<Neighbor>, p: int)
    requires
        0 <= p < s.len(),
    ensures
        macs(swap_removed(s, p)) == swap_remove_at(macs(s), p),
{
    assert(macs(swap_removed(s, p)) =~= swap_remove_at(macs(s), p));
}

/// `s` after removing, in turn, the neighbour with each of the MAC
/// addresses `ms`.
pub open spec fn removed_all(s: Seq<Neighbor>, ms: Seq<[u8; 6]>) -> Seq<Neighbor>
    decreases ms.len(),
{
    if ms.len() == 0 {
        s
    } else {
        let r = removed_all(s, ms.drop_last());
        let p = position_of(r, ms.last()@);
        if p >= 0 {
            swap_removed(r, p)
        } else {
            r
        }
    }
}

/// The MAC addresses of the expired neighbours, in table order.
pub open spec fn expired_macs(s: Seq<Neighbor>, now: u64) -> Seq<[u8; 6]> {
    s.filter(expired_pred(now)).map_values(|n: Neighbor| n.mac)
}

/// Whether every neighbour was heard no later than `now`.
pub open spec fn heard_before(s: Seq<Neighbor>, now: u64) -> bool {
    forall|i: int| 0 <= i < s.len() ==> s[i].last_seen <= now
}

/// A node's routing state after hearing `distance` from `mac` at `now`, and
/// whether that changed its routes (in which case its own route is derived
/// anew).
pub open spec fn after_hearing(v: RoutingView, mac: [u8; 6], distance: u8, rssi: i8, now: u64) -> (
    RoutingView,
    bool,
) {
    let (s, changed) = heard(v.neighbors, mac, distance, rssi, now);
    let w = RoutingView { neighbors: s, ..v };
    (
        if changed {
            recomputed(w)
        } else {
            w
        },
        changed,
    )
}

/// A node's routing state after the neighbours expired at `now` are dropped.
pub open spec fn after_cleanup(v: RoutingView, now: u64) -> RoutingView {
    let ms = expired_macs(v.neighbors, now);
    let w = RoutingView { neighbors: removed_all(v.neighbors, ms), ..v };
    if ms.len() > 0 {
        recomputed(w)
    } else {
        w
    }
}

/// The distance a routing message announces.
pub open spec fn announced_distance(m: RoutingMessage) -> u8 {
    match m {
        RoutingMessage::NeighborBeacon { distance_from_root } => distance_from_root,
        RoutingMessage::RouteUpdate { distance_from_root } => distance_from_root,
    }
}

/// `position_of` finds the first neighbour with the address, or -1 when
/// there is none.
pub proof fn lemma_position_of(s: Seq<Neighbor>, m: Seq<u8>)
    ensures
        -1 <= position_of(s, m) < s.len(),
        position_of(s, m) >= 0 ==> s[position_of(s, m)].mac@ == m,
        position_of(s, m) < 0 ==> forall|i: int| 0 <= i < s.len() ==> s[i].mac@ != m,
        position_of(s, m) >= 0 ==> forall|i: int| 0 <= i < position_of(s, m) ==> s[i].mac@ != m,
    decreases s.len(),
{
    if s.len() > 0 {
        lemma_position_of(s.drop_last(), m);
        assert forall|i: int| 0 <= i < s.len() - 1 implies s[i] == s.drop_last()[i] by {}
    }
}

/// Removing one neighbour keeps addresses distinct and shortens the table
/// by one.
pub proof fn lemma_swap_removed_wf(s: Seq<Neighbor>, p: int)
    requires
        table_wf(s),
        0 <= p < s.len(),
    ensures
        table_wf(swap_removed(s, p)),
        swap_removed(s, p).len() == s.len() - 1,
{
    let r = swap_removed(s, p);
    assert forall|i: int, j: int| 0 <= i < j < r.len() implies r[i].mac@ != r[j].mac@ by {
        let si = if i == p {
            s.len() - 1
        } else {
            i
        };
        let sj = if j == p {
            s.len() - 1
        } else {
            j
        };
        assert(r[i] == s[si]);
        assert(r[j] == s[sj]);
        assert(si != sj);
    }
}

/// Removing several neighbours keeps addresses distinct.
pub proof fn lemma_removed_all_wf(s: Seq<Neighbor>, ms: Seq<[u8; 6]>)
    requires
        table_wf(s),
    ensures
        table_wf(removed_all(s, ms)),
    decreases ms.len(),
{
    if ms.len() > 0 {
        lemma_removed_all_wf(s, ms.drop_last());
        let r = removed_all(s, ms.drop_last());
        lemma_position_of(r, ms.last()@);
        if position_of(r, ms.last()@) >= 0 {
            lemma_swap_removed_wf(r, position_of(r, ms.last()@));
        }
    }
}

/// The best neighbour knows a route, no neighbour knows a shorter one, and
/// there is a best neighbour exactly when some neighbour knows a route.
pub proof fn lemma_best_is_min(s: Seq<Neighbor>)
    ensures
        best_neighbor(s) is None <==> forall|i: int|
            0 <= i < s.len() ==> s[i].distance_from_root == UNKNOWN_DISTANCE,
        best_neighbor(s) is Some ==> {
            let (m, d) = best_neighbor(s)->0;
            &&& d < UNKNOWN_DISTANCE
            &&& exists|i: int|
                0 <= i < s.len() && s[i].mac == m && s[i].distance_from_root == d
            &&& forall|i: int|
                0 <= i < s.len() && s[i].distance_from_root < UNKNOWN_DISTANCE ==> d
                    <= s[i].distance_from_root
        },
    decreases s.len(),
{
    if s.len() > 0 {
        let t = s.drop_last();
        lemma_best_is_min(t);
        assert forall|i: int| 0 <= i < t.len() implies t[i] == s[i] by {}
        let n = s.last();
        assert(s[s.len() - 1] == n);
        if best_neighbor(t) is Some {
            let (m, d) = best_neighbor(t)->0;
            let i0 = choose|i: int| 0 <= i < t.len() && t[i].mac == m && t[i].distance_from_root == d;
            assert(s[i0] == t[i0]);
        }
    }
}

fn same_mac(a: &[u8; 6], b: &[u8; 6]) -> (r: bool)
    ensures
        r == (a@ == b@),
{
    let r = a[0] == b[0] && a[1] == b[1] && a[2] == b[2] && a[3] == b[3] && a[4] == b[4] && a[5]
        == b[5];
    if r {
        assert(a@ =~= b@);
    } else {
        assert(a@ != b@) by {
            if a@ == b@ {
                assert(a@[0] == b@[0] && a@[1] == b@[1] && a@[2] == b@[2]);
                assert(a@[3] == b@[3] && a@[4] == b@[4] && a@[5] == b@[5]);
            }
        }
    }
    r
}

/// The position of the neighbour with address `mac` in `vals`, if any.
fn find(vals: &Vec<Neighbor>, mac: &[u8; 6]) -> (r: Option<usize>)
    ensures
        r is None ==> position_of(vals@, mac@) < 0,
        r is Some ==> r->0 == position_of(vals@, mac@),
{
    proof {
        lemma_position_of(vals@, mac@);
    }
    let mut i: usize = 0;
    while i < vals.len()
        invariant
            i <= vals@.len(),
            forall|k: int| 0 <= k < i ==> vals@[k].mac@ != mac@,
            -1 <= position_of(vals@, mac@) < vals@.len(),
            position_of(vals@, mac@) >= 0 ==> vals@[position_of(vals@, mac@)].mac@ == mac@,
            position_of(vals@, mac@) >= 0 ==> forall|k: int|
                0 <= k < position_of(vals@, mac@) ==> vals@[k].mac@ != mac@,
            position_of(vals@, mac@) < 0 ==> forall|k: int|
                0 <= k < vals@.len() ==> vals@[k].mac@ != mac@,
        decreases vals@.len() - i,
    {
        if same_mac(&vals[i].mac, mac) {
            return Some(i);
        }
        i = i + 1;
    }
    None
}

impl RoutingTable {
    /// The map's keys are its neighbours' own addresses.
    pub closed spec fn keys_match(&self) -> bool {
        neighbor_keys(self.neighbors) == macs(neighbor_values(self.neighbors))
    }

    pub open spec fn wf(&self) -> bool {
        table_wf(self@.neighbors) && self.keys_match()
    }

    /// An empty table; the root starts at distance 0, any other node at 255.
    pub fn new(our_mac: [u8; 6], is_root: bool) -> (r: Self)
        ensures
            r.wf(),
            r@ == (RoutingView {
                neighbors: Seq::empty(),
                our_distance: if is_root {
                    0
                } else {
                    UNKNOWN_DISTANCE
                },
                parent_mac: None,
                our_mac,
            }),
    {
        let neighbors = neighbor_map_new();
        assert(macs(neighbor_values(neighbors)) =~= neighbor_keys(neighbors));
        RoutingTable {
            neighbors,
            our_distance: if is_root {
                0
            } else {
                255
            },
            parent_mac: None,
            our_mac,
        }
    }

    /// Records that `mac` was heard at `now` announcing `distance_from_root`,
    /// and derives the node's route again if that changed anything. Returns
    /// whether it did.
    pub fn update_neighbor(
        &mut self,
        mac: [u8; 6],
        distance_from_root: u8,
        rssi: i8,
        now: u64,
    ) -> (r: bool)
        requires
            old(self).wf(),
        ensures
            final(self).wf(),
            (final(self)@, r) == after_hearing(old(self)@, mac, distance_from_root, rssi, now),
    {
        let mut route_changed = false;
        let ghost s = old(self)@.neighbors;
        let vals = neighbor_map_values(&self.neighbors);
        proof {
            lemma_position_of(s, mac@);
            lemma_key_position(s, mac@);
        }
        match find(&vals, &mac) {
            Some(p) => {
                let old_entry = vals[p];
                if old_entry.distance_from_root != distance_from_root {
                    route_changed = true;
                }
                let entry = Neighbor {
                    mac: old_entry.mac,
                    distance_from_root,
                    last_seen: now,
                    rssi,
                };
                proof {
                    lemma_position_of(s, old_entry.mac@);
                    lemma_key_position(s, old_entry.mac@);
                }
                neighbor_map_insert(&mut self.neighbors, old_entry.mac, entry);
                proof {
                    let n = neighbor_values(self.neighbors);
                    assert(n == s.update(p as int, entry));
                    assert(macs(n) =~= macs(s));
                    assert forall|i: int, j: int|
                        0 <= i < j < n.len() implies n[i].mac@ != n[j].mac@ by {
                        assert(n[i].mac == s[i].mac);
                        assert(n[j].mac == s[j].mac);
                    }
                }
            },
            None => {
                if neighbor_map_len(&self.neighbors) < MAX_NEIGHBORS {
                    let entry = Neighbor { mac, distance_from_root, last_seen: now, rssi };
                    neighbor_map_insert(&mut self.neighbors, mac, entry);
                    route_changed = true;
                    proof {
                        let n = neighbor_values(self.neighbors);
                        assert(n == s.push(entry));
                        assert(macs(n) =~= macs(s).push(mac));
                        assert forall|i: int, j: int|
                            0 <= i < j < n.len() implies n[i].mac@ != n[j].mac@ by {
                            if j == s.len() {
                                assert(n[i] == s[i]);
                            } else {
                                assert(n[i] == s[i]);
                                assert(n[j] == s[j]);
                            }
                        }
                    }
                }
            },
        }
        if route_changed {
            self.update_our_distance();
        }
        route_changed
    }

    /// Derives the node's distance and parent from its neighbours.
    fn update_our_distance(&mut self)
        requires
            old(self).wf(),
        ensures
            final(self).wf(),
            final(self)@ == recomputed(old(self)@),
    {
        if self.our_distance == 0 {
            return;
        }
        let mut best: Option<([u8; 6], u8)> = None;
        let vals = neighbor_map_values(&self.neighbors);
        let n = vals.len();
        let ghost s = vals@;
        let mut i: usize = 0;
        while i < n
            invariant
                s == vals@,
                n == s.len(),
                i <= n,
                best == best_neighbor(s.take(i as int)),
            decreases n - i,
        {
            let nb = vals[i];
            let ghost t = s.take(i + 1);
            assert(t.drop_last() =~= s.take(i as int));
            assert(t.last() == nb);
            if nb.distance_from_root < 255 {
                match best {
                    None => {
                        best = Some((nb.mac, nb.distance_from_root));
                    },
                    Some(b) => {
                        if nb.distance_from_root < b.1 {
                            best = Some((nb.mac, nb.distance_from_root));
                        }
                    },
                }
            }
            i = i + 1;
        }
        assert(s.take(n as int) =~= s);
        match best {
            Some(b) => {
                let new_distance = b.1.saturating_add(1);
                if new_distance != self.our_distance {
                    self.our_distance = new_distance;
                    self.parent_mac = Some(b.0);
                }
            },
            None => {
                if self.our_distance != 255 {
                    self.our_distance = 255;
                    self.parent_mac = None;
                }
            },
        }
    }

    /// Drops every neighbour silent for more than 30 whole seconds at `now`,
    /// in table order (each removed entry's place taken by the last one),
    /// and derives the node's route again if any was dropped.
    pub fn remove_expired_neighbors(&mut self, now: u64)
        requires
            old(self).wf(),
            heard_before(old(self)@.neighbors, now),
        ensures
            final(self).wf(),
            final(self)@ == after_cleanup(old(self)@, now),
    {
        let vals = neighbor_map_values(&self.neighbors);
        let ghost s = vals@;
        let mut expired: Vec<[u8; 6]> = Vec::new();
        let n = vals.len();
        let mut i: usize = 0;
        while i < n
            invariant
                s == vals@,
                n == s.len(),
                i <= n,
                heard_before(s, now),
                expired@ == expired_macs(s.take(i as int), now),
            decreases n - i,
        {
            let nb = vals[i];
            let ghost t = s.take(i + 1);
            assert(t.drop_last() =~= s.take(i as int));
            assert(t.last() == nb);
            assert(t.filter(expired_pred(now)) == if expired_pred(now)(nb) {
                t.drop_last().filter(expired_pred(now)).push(nb)
            } else {
                t.drop_last().filter(expired_pred(now))
            }) by {
                reveal(Seq::filter);
            }
            assert(nb.last_seen <= now);
            if (now - nb.last_seen) / 1_000_000 > NEIGHBOR_EXPIRY_SECS {
                expired.push(nb.mac);
                assert(expired@ =~= expired_macs(t, now));
            } else {
                assert(expired@ =~= expired_macs(t, now));
            }
            i = i + 1;
        }
        assert(s.take(n as int) =~= s);
        let ghost ms = expired@;
        let mut j: usize = 0;
        while j < expired.len()
            invariant
                ms == expired@,
                j <= ms.len(),
                neighbor_values(self.neighbors) == removed_all(s, ms.take(j as int)),
                table_wf(neighbor_values(self.neighbors)),
                self.keys_match(),
                self.our_distance == old(self)@.our_distance,
                self.parent_mac == old(self)@.parent_mac,
                self.our_mac == old(self)@.our_mac,
            decreases ms.len() - j,
        {
            let mac = expired[j];
            assert(ms.take(j + 1).drop_last() =~= ms.take(j as int));
            assert(ms.take(j + 1).last() == mac);
            let ghost cur = neighbor_values(self.neighbors);
            proof {
                lemma_position_of(cur, mac@);
                lemma_key_position(cur, mac@);
                let p = position_of(cur, mac@);
                if p >= 0 {
                    lemma_swap_removed_wf(cur, p);
                    lemma_macs_swap_removed(cur, p);
                }
            }
            neighbor_map_remove(&mut self.neighbors, &mac);
            j = j + 1;
        }
        assert(ms.take(j as int) =~= ms);
        if expired.len() > 0 {
            self.update_our_distance();
        }
    }

    /// The node's distance from the root (0 the root, 255 unknown).
    pub fn our_distance(&self) -> (r: u8)
        ensures
            r == self@.our_distance,
    {
        self.our_distance
    }

    /// Whether to relay `packet`: not once it has made ten hops, and never
    /// the node's own packets.
    pub fn should_forward(&self, packet: &MeshPacket) -> (r: bool)
        ensures
            r == (packet.hop_count < MAX_HOP_COUNT && packet.source_mac@ != self@.our_mac@),
    {
        if packet.hop_count >= MAX_HOP_COUNT {
            return false;
        }
        if same_mac(&packet.source_mac, &self.our_mac) {
            return false;
        }
        true
    }

    /// Makes the node the root (distance 0, no parent), or, if it was the
    /// root, a node with no known route.
    pub fn set_root(&mut self, is_root: bool)
        ensures
            final(self)@ == if is_root {
                RoutingView { our_distance: 0, parent_mac: None, ..old(self)@ }
            } else if old(self)@.our_distance == 0 {
                RoutingView { our_distance: UNKNOWN_DISTANCE, ..old(self)@ }
            } else {
                old(self)@
            },
    {
        if is_root {
            self.our_distance = 0;
            self.parent_mac = None;
        } else if self.our_distance == 0 {
            self.our_distance = 255;
        }
    }
}

/// Passes a routing message heard from `sender_mac` at `now` to the node's
/// table, once it is set up; beacons and route updates are treated alike.
pub fn handle_routing_message(
    table: &mut Option<RoutingTable>,
    sender_mac: [u8; 6],
    message: &RoutingMessage,
    rssi: i8,
    now: u64,
)
    requires
        (*old(table)) is Some ==> old(table)->0.wf(),
    ensures
        (*old(table)) is None ==> (*final(table)) is None,
        (*old(table)) is Some ==> (*final(table)) is Some && final(table)->0.wf() && final(table)->0@ == after_hearing(
            old(table)->0@,
            sender_mac,
            announced_distance(*message),
            rssi,
            now,
        ).0,
{
    match table {
        Some(t) => {
            match message {
                RoutingMessage::NeighborBeacon { distance_from_root } => {
                    t.update_neighbor(sender_mac, *distance_from_root, rssi, now);
                },
                RoutingMessage::RouteUpdate { distance_from_root } => {
                    t.update_neighbor(sender_mac, *distance_from_root, rssi, now);
                },
            }
        },
        None => {},
    }
}

/// The node's distance from the root; 255 before routing is set up.
pub fn our_distance(table: &Option<RoutingTable>) -> (r: u8)
    ensures
        table is None ==> r == UNKNOWN_DISTANCE,
        table is Some ==> r == table->0@.our_distance,
{
    match table {
        Some(t) => t.our_distance(),
        None => 255,
    }
}

/// Whether to relay `packet`; never before routing is set up.
pub fn should_forward(table: &Option<RoutingTable>, packet: &MeshPacket) -> (r: bool)
    ensures
        table is None ==> !r,
        table is Some ==> r == (packet.hop_count < MAX_HOP_COUNT && packet.source_mac@
            != table->0@.our_mac@),
{
    match table {
        Some(t) => t.should_forward(packet),
        None => false,
    }
}

/// One round of the cleanup task: expired neighbours leave the node's table.
pub fn cleanup_neighbors(table: &mut Option<RoutingTable>, now: u64)
    requires
        (*old(table)) is Some ==> old(table)->0.wf() && heard_before(
            old(table)->0@.neighbors,
            now,
        ),
    ensures
        (*old(table)) is None ==> (*final(table)) is None,
        (*old(table)) is Some ==> (*final(table)) is Some && final(table)->0.wf() && final(table)->0@
            == after_cleanup(old(table)->0@, now),
{
    match table {
        Some(t) => t.remove_expired_neighbors(now),
        None => {},
    }
}

/// The relayed copy of a received packet, one hop further, if it is to be
/// relayed at all.
pub fn forward_packet(table: &Option<RoutingTable>, packet: &MeshPacket) -> (r: Option<MeshPacket>)
    ensures
        r is Some <==> (table is Some && packet.hop_count < MAX_HOP_COUNT && packet.source_mac@
            != table->0@.our_mac@),
        r is Some ==> ({
            let f = r->0;
            &&& f.hop_count == packet.hop_count + 1
            &&& f.packet_type == packet.packet_type
            &&& f.timestamp == packet.timestamp
            &&& f.source_mac == packet.source_mac
            &&& payload_bytes(f.payload) == payload_bytes(packet.payload)
        }),
{
    if should_forward(table, packet) {
        let mut forwarded = MeshPacket {
            hop_count: packet.hop_count,
            packet_type: packet.packet_type,
            timestamp: packet.timestamp,
            source_mac: packet.source_mac,
            payload: payload_clone(&packet.payload),
        };
        forwarded.increment_hop();
        Some(forwarded)
    } else {
        None
    }
}

/// The node's periodic routing beacon, sent from `our_mac` at `now_us`, with
/// its encoded message as payload.
pub fn neighbor_beacon_packet(our_mac: [u8; 6], now_us: u64, encoded: &[u8]) -> (p: MeshPacket)
    ensures
        p.hop_count == 0,
        p.packet_type == PacketType::Routing,
        p.timestamp == now_us,
        p.source_mac == our_mac,
        payload_bytes(p.payload) == encoded@.take(
            if encoded@.len() < 236 {
                encoded@.len() as int
            } else {
                236
            },
        ),
{
    let mut packet = MeshPacket::new(PacketType::Routing, now_us, our_mac);
    packet.append_payload(encoded);
    packet
}

/// A node's distance is 0 if it is the root; otherwise, after its route
/// is derived, it is one more than the smallest distance any neighbour
/// announces, or 255 when none knows a route.
pub proof fn lemma_distance_is_min_plus_one(v: RoutingView)
    ensures
        v.our_distance == 0 ==> recomputed(v).our_distance == 0,
        v.our_distance != 0 && (forall|i: int|
            0 <= i < v.neighbors.len() ==> v.neighbors[i].distance_from_root == UNKNOWN_DISTANCE)
            ==> recomputed(v).our_distance == UNKNOWN_DISTANCE,
        v.our_distance != 0 && (exists|i: int|
            0 <= i < v.neighbors.len() && v.neighbors[i].distance_from_root < UNKNOWN_DISTANCE)
            ==> {
            let d = recomputed(v).our_distance;
            &&& exists|i: int|
                0 <= i < v.neighbors.len() && v.neighbors[i].distance_from_root + 1 == d
            &&& forall|i: int|
                0 <= i < v.neighbors.len() && v.neighbors[i].distance_from_root < UNKNOWN_DISTANCE
                    ==> d <= v.neighbors[i].distance_from_root + 1
        },
{
    lemma_best_is_min(v.neighbors);
}


/// Hearing `mac` announce `distance` changes the routes exactly when a known
/// neighbour announces a new distance or a new neighbour fits in the table
/// (a new one that finds ten neighbours leaves everything as it was). When
/// the routes change, a node other than the root then sits one hop beyond
/// its nearest neighbour that knows a route (saturating at 255), or at 255
/// when none does.
pub proof fn lemma_hearing_routes_through_nearest(
    v: RoutingView,
    mac: [u8; 6],
    distance: u8,
    rssi: i8,
    now: u64,
)
    ensures
        ({
            let (w, changed) = after_hearing(v, mac, distance, rssi, now);
            let p = position_of(v.neighbors, mac@);
            &&& changed == ((p >= 0 && v.neighbors[p].distance_from_root != distance) || (p < 0
                && v.neighbors.len() < MAX_NEIGHBORS))
            &&& (p < 0 && v.neighbors.len() >= MAX_NEIGHBORS ==> w == v)
            &&& (changed && v.our_distance != 0 && (forall|i: int|
                0 <= i < w.neighbors.len() ==> w.neighbors[i].distance_from_root == UNKNOWN_DISTANCE)
                ==> w.our_distance == UNKNOWN_DISTANCE)
            &&& (changed && v.our_distance != 0 && (exists|i: int|
                0 <= i < w.neighbors.len() && w.neighbors[i].distance_from_root < UNKNOWN_DISTANCE)
                ==> (exists|i: int|
                0 <= i < w.neighbors.len() && w.neighbors[i].distance_from_root + 1
                    == w.our_distance) && (forall|i: int|
                0 <= i < w.neighbors.len() && w.neighbors[i].distance_from_root < UNKNOWN_DISTANCE
                    ==> w.our_distance <= w.neighbors[i].distance_from_root + 1))
        }),
{
    lemma_position_of(v.neighbors, mac@);
    let (s, changed) = heard(v.neighbors, mac, distance, rssi, now);
    let pre = RoutingView { neighbors: s, ..v };
    lemma_distance_is_min_plus_one(pre);
    let (w, c) = after_hearing(v, mac, distance, rssi, now);
    assert(c == changed);
    if changed {
        assert(w == recomputed(pre));
        assert(w.neighbors == s);
    }
    let p = position_of(v.neighbors, mac@);
    if p < 0 && v.neighbors.len() >= MAX_NEIGHBORS {
        assert(pre == v);
    }
}

} // verus!
