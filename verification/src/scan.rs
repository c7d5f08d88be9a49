//! Network discovery: from the access points a WiFi scan reports, pick an
//! existing mesh to join or else the strongest matching router, and back
//! off between scans that find nothing.

use vstd::prelude::*;
use crate::text::{bytes_equal, contains_bytes, has_infix, lossy_string, utf8_is_valid};
use vstd::string::StringSliceAdditionalSpecFns;

verus! {

/// One access point as a scan reports it.
#[derive(Clone, Copy)]
pub struct ApRecord {
    /// The SSID bytes, ended by a zero byte unless all 33 are used.
    pub ssid: [u8; 33],
    pub bssid: [u8; 6],
    /// Primary channel.
    pub primary: u8,
    pub rssi: i8,
    /// Length of the mesh vendor elements that the mesh stack reported for
    /// this access point; 0 when there were none or the query failed.
    pub mesh_ie_len: i32,
}

/// Number of SSID bytes before the first zero byte.
pub open spec fn ssid_len(s: Seq<u8>) -> int {
    if exists|i: int| 0 <= i < s.len() && s[i] == 0 {
        choose|i: int| 0 <= i < s.len() && s[i] == 0 && forall|k: int| 0 <= k < i ==> s[k] != 0
    } else {
        s.len() as int
    }
}

/// The SSID bytes before the first zero byte.
pub open spec fn ssid_bytes(ap: ApRecord) -> Seq<u8> {
    ap.ssid@.take(ssid_len(ap.ssid@))
}

/// Whether an access point sends on a 2.4GHz channel that the mesh may use.
pub open spec fn on_mesh_band(ap: ApRecord) -> bool {
    ap.primary <= 13
}

pub open spec fn upper_mesh() -> Seq<u8> {
    seq![0x4du8, 0x45u8, 0x53u8, 0x48u8]
}

pub open spec fn lower_mesh() -> Seq<u8> {
    seq![0x6du8, 0x65u8, 0x73u8, 0x68u8]
}

/// Whether an access point belongs to an ESP-MESH network: it carries mesh
/// vendor elements, or its SSID is text that contains `MESH` or `mesh`.
pub open spec fn is_mesh_spec(ap: ApRecord) -> bool {
    ||| ap.mesh_ie_len > 0
    ||| (vstd::utf8::valid_utf8(ssid_bytes(ap)) && (has_infix(ssid_bytes(ap), upper_mesh())
        || has_infix(ssid_bytes(ap), lower_mesh())))
}

/// The SSID bytes of `ap`, up to the first zero byte.
pub fn ap_ssid(ap: &ApRecord) -> (r: Vec<u8>)
    ensures
        r@ == ssid_bytes(*ap),
{
    let mut r: Vec<u8> = Vec::new();
    let mut i: usize = 0;
    while i < 33
        invariant
            i <= 33,
            r@ == ap.ssid@.take(i as int),
            forall|k: int| 0 <= k < i ==> ap.ssid@[k] != 0,
        decreases 33 - i,
    {
        if ap.ssid[i] == 0 {
            proof {
                let s = ap.ssid@;
                assert(exists|j: int| 0 <= j < s.len() && s[j] == 0) by {
                    assert(s[i as int] == 0);
                }
                let j = ssid_len(s);
                assert(s[j] == 0 && forall|k: int| 0 <= k < j ==> s[k] != 0);
                if j < i {
                } else if j > i {
                    assert(s[i as int] != 0);
                }
                assert(j == i);
            }
            return r;
        }
        r.push(ap.ssid[i]);
        i = i + 1;
        assert(r@ =~= ap.ssid@.take(i as int));
    }
    proof {
        let s = ap.ssid@;
        assert(!exists|j: int| 0 <= j < s.len() && s[j] == 0);
        assert(s.take(33) =~= s);
    }
    r
}

/// Whether an access point belongs to an ESP-MESH network: it carries the
/// mesh vendor element, or its SSID is UTF-8 text containing `MESH` or
/// `mesh`. A scan record holds no mesh ID, so `mesh_id` cannot be compared
/// and a mesh with another ID is recognised too.
pub fn is_mesh_network(ap: &ApRecord, mesh_id: &[u8; 6]) -> (r: bool)
    ensures
        r == is_mesh_spec(*ap),
{
    if ap.mesh_ie_len > 0 {
        return true;
    }
    let ssid = ap_ssid(ap);
    if ssid.len() == 0 {
        assert(!has_infix(ssid@, upper_mesh()));
        assert(!has_infix(ssid@, lower_mesh()));
        return false;
    }
    if !utf8_is_valid(ssid.as_slice()) {
        return false;
    }
    let upper: [u8; 4] = [0x4d, 0x45, 0x53, 0x48];
    let lower: [u8; 4] = [0x6d, 0x65, 0x73, 0x68];
    assert(upper@ =~= upper_mesh());
    assert(lower@ =~= lower_mesh());
    contains_bytes(ssid.as_slice(), upper.as_slice()) || contains_bytes(
        ssid.as_slice(),
        lower.as_slice(),
    )
}

/// Whether `s` holds the four bytes `a b c d` starting at position `i`.
pub open spec fn four_bytes_at(s: Seq<u8>, i: int, a: u8, b: u8, c: u8, d: u8) -> bool {
    0 <= i && i + 4 <= s.len() && s[i] == a && s[i + 1] == b && s[i + 2] == c && s[i + 3] == d
}

/// An access point is recognised as a mesh exactly when it carries mesh
/// vendor elements, or its SSID (the bytes before the first zero) is UTF-8
/// text in which `mesh` or `MESH` occurs, at any position.
pub proof fn lemma_mesh_recognised_anywhere(ap: ApRecord, i: int)
    ensures
        ap.mesh_ie_len > 0 ==> is_mesh_spec(ap),
        vstd::utf8::valid_utf8(ssid_bytes(ap)) && four_bytes_at(ssid_bytes(ap), i, 0x6d, 0x65, 0x73, 0x68)
            ==> is_mesh_spec(ap),
        vstd::utf8::valid_utf8(ssid_bytes(ap)) && four_bytes_at(ssid_bytes(ap), i, 0x4d, 0x45, 0x53, 0x48)
            ==> is_mesh_spec(ap),
        is_mesh_spec(ap) ==> ap.mesh_ie_len > 0 || (vstd::utf8::valid_utf8(ssid_bytes(ap)) && exists|j: int|
            four_bytes_at(ssid_bytes(ap), j, 0x6d, 0x65, 0x73, 0x68) || four_bytes_at(
                ssid_bytes(ap),
                j,
                0x4d,
                0x45,
                0x53,
                0x48,
            )),
{
    let s = ssid_bytes(ap);
    if four_bytes_at(s, i, 0x6d, 0x65, 0x73, 0x68) {
        assert(s.subrange(i, i + 4) =~= lower_mesh());
    }
    if four_bytes_at(s, i, 0x4d, 0x45, 0x53, 0x48) {
        assert(s.subrange(i, i + 4) =~= upper_mesh());
    }
    if is_mesh_spec(ap) && ap.mesh_ie_len <= 0 {
        if has_infix(s, lower_mesh()) {
            let j = choose|j: int| 0 <= j && j + lower_mesh().len() <= s.len() && #[trigger] s.subrange(j, j + lower_mesh().len()) == lower_mesh();
            assert(s.subrange(j, j + 4)[0] == s[j]);
            assert(s.subrange(j, j + 4)[1] == s[j + 1]);
            assert(s.subrange(j, j + 4)[2] == s[j + 2]);
            assert(s.subrange(j, j + 4)[3] == s[j + 3]);
            assert(four_bytes_at(s, j, 0x6d, 0x65, 0x73, 0x68));
        } else {
            let j = choose|j: int| 0 <= j && j + upper_mesh().len() <= s.len() && #[trigger] s.subrange(j, j + upper_mesh().len()) == upper_mesh();
            assert(s.subrange(j, j + 4)[0] == s[j]);
            assert(s.subrange(j, j + 4)[1] == s[j + 1]);
            assert(s.subrange(j, j + 4)[2] == s[j + 2]);
            assert(s.subrange(j, j + 4)[3] == s[j + 3]);
            assert(four_bytes_at(s, j, 0x4d, 0x45, 0x53, 0x48));
        }
    }
}

/// What a discovery scan found.
pub enum NetworkDiscovery {
    /// An ESP-MESH network to join.
    ExistingMesh { channel: u8, rssi: i8, bssid: [u8; 6], ssid: String },
    /// The router, with no mesh around.
    Router { channel: u8, rssi: i8, bssid: [u8; 6] },
    /// Neither.
    NotFound,
}

impl NetworkDiscovery {
    /// The channel found, if any.
    pub fn channel(&self) -> (r: Option<u8>)
        ensures
            r == match self {
                NetworkDiscovery::ExistingMesh { channel, .. } => Some(*channel),
                NetworkDiscovery::Router { channel, .. } => Some(*channel),
                NetworkDiscovery::NotFound => None::<u8>,
            },
    {
        match self {
            NetworkDiscovery::ExistingMesh { channel, .. } => Some(*channel),
            NetworkDiscovery::Router { channel, .. } => Some(*channel),
            NetworkDiscovery::NotFound => None,
        }
    }

    /// The BSSID found, if any.
    pub fn bssid(&self) -> (r: Option<[u8; 6]>)
        ensures
            r == match self {
                NetworkDiscovery::ExistingMesh { bssid, .. } => Some(*bssid),
                NetworkDiscovery::Router { bssid, .. } => Some(*bssid),
                NetworkDiscovery::NotFound => None::<[u8; 6]>,
            },
    {
        match self {
            NetworkDiscovery::ExistingMesh { bssid, .. } => Some(*bssid),
            NetworkDiscovery::Router { bssid, .. } => Some(*bssid),
            NetworkDiscovery::NotFound => None,
        }
    }
}

/// Whether `ap` is a mesh access point on a usable channel.
pub open spec fn mesh_candidate(ap: ApRecord) -> bool {
    on_mesh_band(ap) && is_mesh_spec(ap)
}

/// Whether `ap` is the router `router` on a usable channel.
pub open spec fn router_candidate(ap: ApRecord, router: Seq<u8>) -> bool {
    on_mesh_band(ap) && ssid_bytes(ap) == router
}

/// Index `i` is the first mesh candidate.
pub open spec fn first_mesh(aps: Seq<ApRecord>, i: int) -> bool {
    0 <= i < aps.len() && mesh_candidate(aps[i]) && forall|k: int|
        0 <= k < i ==> !mesh_candidate(#[trigger] aps[k])
}

/// Index `i` is the strongest router candidate, the earliest among equals.
pub open spec fn best_router(aps: Seq<ApRecord>, router: Seq<u8>, i: int) -> bool {
    &&& 0 <= i < aps.len()
    &&& router_candidate(aps[i], router)
    &&& forall|k: int|
        0 <= k < i && router_candidate(#[trigger] aps[k], router) ==> aps[k].rssi < aps[i].rssi
    &&& forall|k: int|
        i < k < aps.len() && router_candidate(#[trigger] aps[k], router) ==> aps[k].rssi
            <= aps[i].rssi
}

/// The discovery result that a list of access points calls for: the first
/// mesh on a usable channel, else the strongest router, else nothing.
pub open spec fn discovery_matches(
    aps: Seq<ApRecord>,
    router: Seq<u8>,
    d: NetworkDiscovery,
) -> bool {
    if exists|i: int| first_mesh(aps, i) {
        exists|i: int|
            first_mesh(aps, i) && #[trigger] aps[i] == aps[i] && match d {
                NetworkDiscovery::ExistingMesh { channel, rssi, bssid, ssid } => channel
                    == aps[i].primary && rssi == aps[i].rssi && bssid == aps[i].bssid && (
                vstd::utf8::valid_utf8(ssid_bytes(aps[i])) ==> ssid@ == vstd::utf8::decode_utf8(
                    ssid_bytes(aps[i]),
                )),
                _ => false,
            }
    } else if exists|i: int| best_router(aps, router, i) {
        exists|i: int|
            best_router(aps, router, i) && #[trigger] aps[i] == aps[i] && d == (
            NetworkDiscovery::Router {
                channel: aps[i].primary,
                rssi: aps[i].rssi,
                bssid: aps[i].bssid,
            })
    } else {
        d is NotFound
    }
}

/// Picks the network to join from what a scan reported (`None` when the
/// scan itself failed): an existing mesh first (recognised as
/// `is_mesh_network` does, whatever its ID), else the router `router_ssid`
/// with the strongest signal, the earliest among equals.
pub fn scan_for_networks(scan: Option<Vec<ApRecord>>, router_ssid: &str, mesh_id: &[u8; 6]) -> (r:
    NetworkDiscovery)
    ensures
        scan is None ==> r is NotFound,
        scan is Some ==> discovery_matches(scan->0@, router_ssid.spec_bytes(), r),
{
    let ghost sv = scan;
    let aps = match scan {
        Some(v) => v,
        None => return NetworkDiscovery::NotFound,
    };
    assert(sv->0@ == aps@);
    let router = router_ssid.as_bytes();
    let mut i: usize = 0;
    while i < aps.len()
        invariant
            i <= aps@.len(),
            sv == scan,
            sv is Some,
            sv->0@ == aps@,
            forall|k: int| 0 <= k < i ==> !mesh_candidate(#[trigger] aps@[k]),
        decreases aps@.len() - i,
    {
        let ap = &aps[i];
        if ap.primary <= 13 && is_mesh_network(ap, mesh_id) {
            let bytes = ap_ssid(ap);
            let ssid = lossy_string(bytes.as_slice());
            let d = NetworkDiscovery::ExistingMesh {
                channel: ap.primary,
                rssi: ap.rssi,
                bssid: ap.bssid,
                ssid,
            };
            assert(first_mesh(aps@, i as int));
            assert(aps@[i as int] == aps@[i as int]);
            return d;
        }
        i = i + 1;
    }
    assert(!exists|j: int| first_mesh(aps@, j));
    let mut best: Option<usize> = None;
    let mut best_rssi: i8 = i8::MIN;
    let mut j: usize = 0;
    while j < aps.len()
        invariant
            j <= aps@.len(),
            router@ == router_ssid.spec_bytes(),
            match best {
                None => forall|k: int|
                    0 <= k < j ==> !router_candidate(#[trigger] aps@[k], router@),
                Some(b) => b < j && router_candidate(aps@[b as int], router@) && best_rssi
                    == aps@[b as int].rssi && (forall|k: int|
                    0 <= k < b && router_candidate(#[trigger] aps@[k], router@) ==> aps@[k].rssi
                        < best_rssi) && (forall|k: int|
                    b < k < j && router_candidate(#[trigger] aps@[k], router@) ==> aps@[k].rssi
                        <= best_rssi),
            },
        decreases aps@.len() - j,
    {
        let ap = &aps[j];
        if ap.primary <= 13 {
            let bytes = ap_ssid(ap);
            if bytes_equal(router, bytes.as_slice()) {
                assert(router_candidate(aps@[j as int], router@));
                let better = match best {
                    None => true,
                    Some(_) => ap.rssi > best_rssi,
                };
                if better {
                    best_rssi = ap.rssi;
                    best = Some(j);
                }
            } else {
                assert(!router_candidate(aps@[j as int], router@));
            }
        }
        j = j + 1;
    }
    match best {
        Some(b) => {
            assert(best_router(aps@, router@, b as int));
            assert(aps@[b as int] == aps@[b as int]);
            NetworkDiscovery::Router { channel: aps[b].primary, rssi: aps[b].rssi, bssid: aps[b].bssid }
        },
        None => {
            assert forall|k: int| !best_router(aps@, router@, k) by {
                if 0 <= k < aps@.len() {
                    assert(!router_candidate(aps@[k], router@));
                }
            }
            NetworkDiscovery::NotFound
        },
    }
}

/// Whether the SSID field holds a zero byte.
pub open spec fn ssid_terminated(ap: ApRecord) -> bool {
    exists|i: int| 0 <= i < ap.ssid@.len() && ap.ssid@[i] == 0
}

/// The SSID as C-string text: the bytes before the first zero byte when
/// there is one and they are UTF-8, else the empty text.
pub open spec fn ssid_text(ap: ApRecord) -> Seq<u8> {
    if ssid_terminated(ap) && vstd::utf8::valid_utf8(ssid_bytes(ap)) {
        ssid_bytes(ap)
    } else {
        Seq::empty()
    }
}

/// The access points of one scan.
pub struct ScanResults {
    pub aps: Vec<ApRecord>,
    pub count: usize,
}

/// Whether `ap` is on a 2.4GHz channel (1 to 14) and its SSID text is `ssid`.
pub open spec fn named_2ghz(ap: ApRecord, ssid: Seq<u8>) -> bool {
    1 <= ap.primary <= 14 && ssid_text(ap) == ssid
}

impl ScanResults {
    /// The first 2.4GHz access point whose SSID text is `ssid`.
    pub fn find_2ghz_network(&self, ssid: &str) -> (r: Option<&ApRecord>)
        ensures
            match r {
                None => forall|i: int|
                    0 <= i < self.aps@.len() ==> !named_2ghz(
                        #[trigger] self.aps@[i],
                        ssid.spec_bytes(),
                    ),
                Some(ap) => exists|i: int|
                    0 <= i < self.aps@.len() && *ap == #[trigger] self.aps@[i] && named_2ghz(
                        self.aps@[i],
                        ssid.spec_bytes(),
                    ) && forall|k: int|
                        0 <= k < i ==> !named_2ghz(#[trigger] self.aps@[k], ssid.spec_bytes()),
            },
    {
        let target = ssid.as_bytes();
        let mut i: usize = 0;
        while i < self.aps.len()
            invariant
                i <= self.aps@.len(),
                target@ == ssid.spec_bytes(),
                forall|k: int|
                    0 <= k < i ==> !named_2ghz(#[trigger] self.aps@[k], ssid.spec_bytes()),
            decreases self.aps@.len() - i,
        {
            let ap = &self.aps[i];
            if ap.primary >= 1 && ap.primary <= 14 {
                let bytes = ap_ssid(ap);
                let terminated = bytes.len() < 33;
                proof {
                    let s = ap.ssid@;
                    if terminated {
                        assert(exists|j: int| 0 <= j < s.len() && s[j] == 0) by {
                            if !exists|j: int| 0 <= j < s.len() && s[j] == 0 {
                                assert(ssid_len(s) == 33);
                            }
                        }
                    } else {
                        if exists|j: int| 0 <= j < s.len() && s[j] == 0 {
                            let j = ssid_len(s);
                            assert(s[j] == 0);
                            assert(j < 33);
                        }
                    }
                }
                let text_matches = if terminated && utf8_is_valid(bytes.as_slice()) {
                    bytes_equal(bytes.as_slice(), target)
                } else {
                    target.len() == 0
                };
                if text_matches {
                    assert(ssid_text(self.aps@[i as int]) =~= ssid.spec_bytes());
                    return Some(ap);
                }
                assert(ssid_text(self.aps@[i as int]) != ssid.spec_bytes());
            }
            i = i + 1;
        }
        None
    }

    /// The channel of the access point that `find_2ghz_network` picks.
    pub fn get_channel(&self, ssid: &str) -> (r: Option<u8>)
        ensures
            match r {
                None => forall|i: int|
                    0 <= i < self.aps@.len() ==> !named_2ghz(
                        #[trigger] self.aps@[i],
                        ssid.spec_bytes(),
                    ),
                Some(c) => exists|i: int|
                    0 <= i < self.aps@.len() && c == (#[trigger] self.aps@[i]).primary && named_2ghz(
                        self.aps@[i],
                        ssid.spec_bytes(),
                    ) && forall|k: int|
                        0 <= k < i ==> !named_2ghz(#[trigger] self.aps@[k], ssid.spec_bytes()),
            },
    {
        match self.find_2ghz_network(ssid) {
            Some(ap) => Some(ap.primary),
            None => None,
        }
    }
}

/// Whether `ap` is a 2.4GHz access point whose SSID, read leniently as
/// text, is `ssid`.
pub open spec fn router_2ghz_candidate(ap: ApRecord, ssid: Seq<char>) -> bool {
    1 <= ap.primary <= 13 && crate::text::utf8_lossy(ssid_bytes(ap)) == ssid
}

/// Picks the 2.4GHz access point named `ssid` with the strongest signal,
/// the earliest among equals.
pub fn select_2ghz_router(aps: &Vec<ApRecord>, ssid: &str) -> (r: Option<ApRecord>)
    ensures
        match r {
            None => forall|k: int|
                0 <= k < aps@.len() ==> !router_2ghz_candidate(#[trigger] aps@[k], ssid@),
            Some(ap) => exists|i: int|
                0 <= i < aps@.len() && ap == #[trigger] aps@[i] && router_2ghz_candidate(ap, ssid@)
                    && (forall|k: int|
                    0 <= k < i && router_2ghz_candidate(#[trigger] aps@[k], ssid@) ==> aps@[k].rssi
                        < ap.rssi) && (forall|k: int|
                    i < k < aps@.len() && router_2ghz_candidate(#[trigger] aps@[k], ssid@)
                        ==> aps@[k].rssi <= ap.rssi),
        },
{
    let mut best: Option<usize> = None;
    let mut best_rssi: i8 = i8::MIN;
    let mut j: usize = 0;
    while j < aps.len()
        invariant
            j <= aps@.len(),
            match best {
                None => forall|k: int|
                    0 <= k < j ==> !router_2ghz_candidate(#[trigger] aps@[k], ssid@),
                Some(b) => b < j && router_2ghz_candidate(aps@[b as int], ssid@) && best_rssi
                    == aps@[b as int].rssi && (forall|k: int|
                    0 <= k < b && router_2ghz_candidate(#[trigger] aps@[k], ssid@) ==> aps@[k].rssi
                        < best_rssi) && (forall|k: int|
                    b < k < j && router_2ghz_candidate(#[trigger] aps@[k], ssid@) ==> aps@[k].rssi
                        <= best_rssi),
            },
        decreases aps@.len() - j,
    {
        let ap = &aps[j];
        if ap.primary >= 1 && ap.primary <= 13 {
            let bytes = ap_ssid(ap);
            let name = lossy_string(bytes.as_slice());
            if name == ssid.to_owned() {
                let better = match best {
                    None => true,
                    Some(_) => ap.rssi > best_rssi,
                };
                if better {
                    best_rssi = ap.rssi;
                    best = Some(j);
                }
            }
        }
        j = j + 1;
    }
    match best {
        Some(b) => {
            assert(aps@[b as int] == aps@[b as int]);
            Some(aps[b])
        },
        None => None,
    }
}

/// What to do after one discovery scan.
pub enum ScanStep {
    /// A network was found.
    Found(NetworkDiscovery),
    /// Nothing was found: sleep this many milliseconds and scan again.
    RetryAfter(u32),
}

/// Exponential back-off between discovery scans that find nothing.
pub struct ScanBackoff {
    pub attempt: u64,
    pub delay_ms: u32,
    pub max_delay_ms: u32,
}

impl ScanBackoff {
    /// Back-off that waits one second after the first empty scan and at
    /// most `max_delay_ms` later on.
    pub fn new(max_delay_ms: u32) -> (b: Self)
        ensures
            b.attempt == 0,
            b.delay_ms == 1000,
            b.max_delay_ms == max_delay_ms,
    {
        ScanBackoff { attempt: 0, delay_ms: 1000, max_delay_ms }
    }

    /// One scan ended with `result`: a found network ends the search; else
    /// the current delay is waited and doubled, up to the maximum.
    pub fn scan_with_retry(&mut self, result: NetworkDiscovery) -> (step: ScanStep)
        ensures
            final(self).max_delay_ms == old(self).max_delay_ms,
            final(self).attempt == if old(self).attempt < u64::MAX {
                old(self).attempt + 1
            } else {
                old(self).attempt as int
            },
            result is NotFound ==> step == ScanStep::RetryAfter(old(self).delay_ms)
                && final(self).delay_ms == if 2 * old(self).delay_ms <= old(self).max_delay_ms {
                2 * old(self).delay_ms
            } else {
                old(self).max_delay_ms as int
            },
            !(result is NotFound) ==> step == ScanStep::Found(result) && final(self).delay_ms
                == old(self).delay_ms,
    {
        self.attempt = if self.attempt < u64::MAX {
            self.attempt + 1
        } else {
            self.attempt
        };
        match result {
            NetworkDiscovery::NotFound => {
                let wait = self.delay_ms;
                let doubled: u32 = if self.delay_ms <= u32::MAX / 2 {
                    self.delay_ms * 2
                } else {
                    u32::MAX
                };
                self.delay_ms = if doubled < self.max_delay_ms {
                    doubled
                } else {
                    self.max_delay_ms
                };
                ScanStep::RetryAfter(wait)
            },
            other => ScanStep::Found(other),
        }
    }
}

/// Why no mesh channel could be settled.
#[derive(Debug, Clone, Copy, PartialEq, Eq, Structural)]
pub enum MeshSetupError {
    /// Neither a saved channel nor a discovered network.
    NoNetwork,
}

/// The channel to start the mesh on and the router to pin, if any: a
/// channel saved by an earlier boot wins; else the discovered mesh's
/// channel, or the discovered router's channel and BSSID.
pub fn init_mesh(saved_channel: Option<u8>, discovery: Option<NetworkDiscovery>) -> (r: Result<
    (u8, Option<[u8; 6]>),
    MeshSetupError,
>)
    ensures
        saved_channel is Some ==> r == Ok::<(u8, Option<[u8; 6]>), MeshSetupError>(
            (saved_channel->0, None),
        ),
        saved_channel is None ==> match discovery {
            Some(NetworkDiscovery::ExistingMesh { channel, .. }) => r == Ok::<
                (u8, Option<[u8; 6]>),
                MeshSetupError,
            >((channel, None)),
            Some(NetworkDiscovery::Router { channel, bssid, .. }) => r == Ok::<
                (u8, Option<[u8; 6]>),
                MeshSetupError,
            >((channel, Some(bssid))),
            _ => r == Err::<(u8, Option<[u8; 6]>), MeshSetupError>(MeshSetupError::NoNetwork),
        },
{
    if let Some(c) = saved_channel {
        return Ok((c, None));
    }
    match discovery {
        Some(NetworkDiscovery::ExistingMesh { channel, .. }) => Ok((channel, None)),
        Some(NetworkDiscovery::Router { channel, bssid, .. }) => Ok((channel, Some(bssid))),
        _ => Err(MeshSetupError::NoNetwork),
    }
}

} // verus!
