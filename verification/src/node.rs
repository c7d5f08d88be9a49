//! A mesh node's own bookkeeping: its place in the mesh, the colour it
//! shows, and the challenge/response counters that measure packet loss.

use vstd::prelude::*;
use crate::color::Rgb8;

verus! {

/// Challenges older than this many milliseconds no longer count as pending.
pub const CHALLENGE_TIMEOUT_MS: u64 = 5000;

/// Packet-loss figures at one moment.
#[derive(Debug, Clone, Copy, PartialEq, Eq, Structural)]
pub struct PacketLossStats {
    pub challenges_sent: u32,
    pub responses_received: u32,
    pub pending: usize,
}

/// The state a mesh node keeps about itself.
pub struct MeshNode {
    pub is_root: bool,
    pub is_connected: bool,
    pub layer: i32,
    pub current_color: Rgb8,
    /// Challenges sent and not yet answered, with the time (ms) they left;
    /// each challenge number occurs once.
    pub pending_challenges: Vec<(u32, u64)>,
    pub total_challenges_sent: u32,
    pub total_responses_received: u32,
}

/// The status colour: off when not connected, dim green for a connected
/// root, dim blue for a connected child.
pub open spec fn status_color(is_connected: bool, is_root: bool) -> Rgb8 {
    if !is_connected {
        Rgb8 { r: 0, g: 0, b: 0 }
    } else if is_root {
        Rgb8 { r: 0, g: 10, b: 0 }
    } else {
        Rgb8 { r: 0, g: 0, b: 10 }
    }
}

/// Whether a challenge sent at `sent` is still pending at `now`.
pub open spec fn still_pending(sent: u64, now: u64) -> bool {
    (if now >= sent {
        now - sent
    } else {
        0
    }) < CHALLENGE_TIMEOUT_MS
}

/// Each challenge number occurs at most once.
pub open spec fn distinct_challenges(s: Seq<(u32, u64)>) -> bool {
    forall|i: int, j: int| 0 <= i < j < s.len() ==> (#[trigger] s[i]).0 != (#[trigger] s[j]).0
}

/// Where challenge `id` is recorded, if it is.
pub open spec fn challenge_index(s: Seq<(u32, u64)>, id: u32) -> Option<int> {
    if exists|i: int| 0 <= i < s.len() && (#[trigger] s[i]).0 == id {
        Some(choose|i: int| 0 <= i < s.len() && (#[trigger] s[i]).0 == id)
    } else {
        None
    }
}

/// Whether a recorded challenge is still pending at `now`.
pub open spec fn entry_pending(now: u64) -> spec_fn((u32, u64)) -> bool {
    |e: (u32, u64)| still_pending(e.1, now)
}

impl MeshNode {
    /// A node that is not connected, not root, not in any layer, showing black.
    pub fn new() -> (n: Self)
        ensures
            !n.is_root,
            !n.is_connected,
            n.layer == -1,
            n.current_color == (Rgb8 { r: 0, g: 0, b: 0 }),
            n.pending_challenges@ == Seq::<(u32, u64)>::empty(),
            n.total_challenges_sent == 0,
            n.total_responses_received == 0,
    {
        MeshNode {
            is_root: false,
            is_connected: false,
            layer: -1,
            current_color: Rgb8::new(0, 0, 0),
            pending_challenges: Vec::new(),
            total_challenges_sent: 0,
            total_responses_received: 0,
        }
    }

    /// The colour that shows the node's connection status.
    pub fn update_status_color(&self) -> (c: Rgb8)
        ensures
            c == status_color(self.is_connected, self.is_root),
    {
        if !self.is_connected {
            Rgb8::new(0, 0, 0)
        } else if self.is_root {
            Rgb8::new(0, 10, 0)
        } else {
            Rgb8::new(0, 0, 10)
        }
    }

    /// Records the colour now shown and returns it.
    pub fn set_color(&mut self, r: u8, g: u8, b: u8) -> (c: Rgb8)
        ensures
            c == (Rgb8 { r, g, b }),
            final(self).current_color == c,
            final(self).pending_challenges@ == old(self).pending_challenges@,
            final(self).total_challenges_sent == old(self).total_challenges_sent,
            final(self).total_responses_received == old(self).total_responses_received,
            final(self).is_root == old(self).is_root,
            final(self).is_connected == old(self).is_connected,
            final(self).layer == old(self).layer,
    {
        let c = Rgb8::new(r, g, b);
        self.current_color = c;
        c
    }

    fn find_challenge(&self, id: u32) -> (r: Option<usize>)
        requires
            distinct_challenges(self.pending_challenges@),
        ensures
            match r {
                Some(i) => challenge_index(self.pending_challenges@, id) == Some(i as int),
                None => challenge_index(self.pending_challenges@, id) is None,
            },
    {
        let mut i: usize = 0;
        while i < self.pending_challenges.len()
            invariant
                distinct_challenges(self.pending_challenges@),
                i <= self.pending_challenges@.len(),
                forall|k: int| 0 <= k < i ==> (#[trigger] self.pending_challenges@[k]).0 != id,
            decreases self.pending_challenges@.len() - i,
        {
            if self.pending_challenges[i].0 == id {
                proof {
                    let s = self.pending_challenges@;
                    let j = choose|j: int| 0 <= j < s.len() && (#[trigger] s[j]).0 == id;
                    assert(j == i as int);
                }
                return Some(i);
            }
            i = i + 1;
        }
        None
    }

    /// A challenge went out (or failed to, when `sent` is false); a sent one
    /// is recorded as pending from `now` (replacing an earlier record of the
    /// same number) and counted.
    pub fn send_challenge(&mut self, challenge_id: u32, sent: bool, now: u64) -> (r: bool)
        requires
            distinct_challenges(old(self).pending_challenges@),
            sent ==> old(self).total_challenges_sent < u32::MAX,
        ensures
            r == sent,
            distinct_challenges(final(self).pending_challenges@),
            sent ==> final(self).total_challenges_sent == old(self).total_challenges_sent + 1
                && final(self).pending_challenges@ == match challenge_index(
                old(self).pending_challenges@,
                challenge_id,
            ) {
                Some(i) => old(self).pending_challenges@.update(i, (challenge_id, now)),
                None => old(self).pending_challenges@.push((challenge_id, now)),
            },
            !sent ==> final(self).pending_challenges@ == old(self).pending_challenges@
                && final(self).total_challenges_sent == old(self).total_challenges_sent,
            final(self).total_responses_received == old(self).total_responses_received,
            final(self).current_color == old(self).current_color,
    {
        if sent {
            match self.find_challenge(challenge_id) {
                Some(i) => {
                    self.pending_challenges.set(i, (challenge_id, now));
                },
                None => {
                    self.pending_challenges.push((challenge_id, now));
                },
            }
            self.total_challenges_sent = self.total_challenges_sent + 1;
        }
        sent
    }

    /// An answer to a challenge arrived; it counts only if the challenge was
    /// pending, and then it is pending no more.
    pub fn handle_challenge_response(&mut self, challenge_id: u32)
        requires
            distinct_challenges(old(self).pending_challenges@),
            challenge_index(old(self).pending_challenges@, challenge_id) is Some
                ==> old(self).total_responses_received < u32::MAX,
        ensures
            distinct_challenges(final(self).pending_challenges@),
            match challenge_index(old(self).pending_challenges@, challenge_id) {
                Some(i) => final(self).pending_challenges@ == old(self).pending_challenges@.remove(i)
                    && final(self).total_responses_received == old(self).total_responses_received
                    + 1,
                None => final(self).pending_challenges@ == old(self).pending_challenges@
                    && final(self).total_responses_received == old(self).total_responses_received,
            },
            final(self).total_challenges_sent == old(self).total_challenges_sent,
            final(self).current_color == old(self).current_color,
            final(self).is_root == old(self).is_root,
            final(self).is_connected == old(self).is_connected,
            final(self).layer == old(self).layer,
    {
        match self.find_challenge(challenge_id) {
            Some(i) => {
                self.pending_challenges.remove(i);
                self.total_responses_received = self.total_responses_received + 1;
            },
            None => {},
        }
    }

    /// Forgets challenges that have been pending for the timeout or longer
    /// and reports the counters.
    pub fn print_packet_loss_stats(&mut self, now: u64) -> (stats: PacketLossStats)
        requires
            distinct_challenges(old(self).pending_challenges@),
        ensures
            final(self).pending_challenges@ == old(self).pending_challenges@.filter(
                entry_pending(now),
            ),
            distinct_challenges(final(self).pending_challenges@),
            stats.challenges_sent == old(self).total_challenges_sent,
            stats.responses_received == old(self).total_responses_received,
            stats.pending == final(self).pending_challenges@.len(),
            final(self).total_challenges_sent == old(self).total_challenges_sent,
            final(self).total_responses_received == old(self).total_responses_received,
            final(self).current_color == old(self).current_color,
    {
        let ghost s0 = self.pending_challenges@;
        let mut kept: Vec<(u32, u64)> = Vec::new();
        let mut i: usize = 0;
        while i < self.pending_challenges.len()
            invariant
                self.pending_challenges@ == s0,
                i <= s0.len(),
                kept@ == s0.take(i as int).filter(entry_pending(now)),
            decreases s0.len() - i,
        {
            let e = self.pending_challenges[i];
            let ghost t = s0.take(i + 1);
            assert(t.drop_last() =~= s0.take(i as int));
            assert(t.last() == e);
            assert(t.filter(entry_pending(now)) == if entry_pending(now)(e) {
                t.drop_last().filter(entry_pending(now)).push(e)
            } else {
                t.drop_last().filter(entry_pending(now))
            }) by {
                reveal(Seq::filter);
            }
            let pending = if now >= e.1 {
                now - e.1
            } else {
                0
            } < CHALLENGE_TIMEOUT_MS;
            if pending {
                kept.push(e);
            }
            i = i + 1;
        }
        assert(s0.take(i as int) =~= s0);
        self.pending_challenges = kept;
        proof {
            lemma_filter_keeps_distinct(s0, entry_pending(now));
        }
        PacketLossStats {
            challenges_sent: self.total_challenges_sent,
            responses_received: self.total_responses_received,
            pending: self.pending_challenges.len(),
        }
    }
}

/// Dropping records keeps challenge numbers distinct.
pub proof fn lemma_filter_keeps_distinct(s: Seq<(u32, u64)>, p: spec_fn((u32, u64)) -> bool)
    requires
        distinct_challenges(s),
    ensures
        distinct_challenges(s.filter(p)),
    decreases s.len(),
{
    reveal(Seq::filter);
    if s.len() > 0 {
        let t = s.drop_last();
        assert(distinct_challenges(t));
        lemma_filter_keeps_distinct(t, p);
        if p(s.last()) {
            let f = t.filter(p);
            assert forall|k: int| 0 <= k < f.len() implies f[k].0 != s.last().0 by {
                t.lemma_filter_pred(p, k);
                assert(f.contains(f[k]));
                t.lemma_filter_contains_rev(p, f[k]);
                let j = choose|j: int| 0 <= j < t.len() && t[j] == f[k];
                assert(s[j] == t[j]);
            }
        }
    }
}

} // verus!
