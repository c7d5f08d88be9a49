//! Update reception on an ESP-NOW node: a table records which chunks of the
//! announced image have arrived; duplicates are ignored, bad ones refused,
//! and the update is ready once every chunk is in.

use vstd::prelude::*;
use crate::bounded::{
    chunk_data_as_slice, chunk_data_bytes, chunk_statuses, sequence_list, sequence_list_new,
    sequence_list_push, status_table_clear, status_table_get, status_table_len, status_table_new,
    status_table_push, status_table_set, version_chars, version_clear, version_clone, version_eq,
    version_new,
};
use crate::checksum::{checksum_iscsi, crc32_iscsi};
use crate::mesh_protocol::{OtaChunkData, OtaStartData};

verus! {

/// Most chunks an update may have.
pub const MAX_CHUNKS: usize = 512;

/// Most chunk numbers one retransmission request lists.
pub const MAX_MISSING_LISTED: usize = 32;

/// State of an update on a node.
#[derive(Debug, Clone, Copy, PartialEq, Eq, Structural)]
pub enum OtaState {
    Idle,
    WaitingForChunks,
    ReceivingChunks,
    ReadyToApply,
    Applying,
    Failed,
}

/// Whether one chunk has arrived.
#[derive(Debug, Clone, Copy, PartialEq, Eq, Structural)]
pub enum ChunkStatus {
    Missing,
    Received,
}

/// Number of chunks marked received.
pub open spec fn received_count(s: Seq<ChunkStatus>) -> nat
    decreases s.len(),
{
    if s.len() == 0 {
        0
    } else {
        received_count(s.drop_last()) + if s.last() == ChunkStatus::Received {
            1nat
        } else {
            0nat
        }
    }
}

/// The numbers of the chunks marked missing, in increasing order.
pub open spec fn missing_indices(s: Seq<ChunkStatus>) -> Seq<u32>
    decreases s.len(),
{
    if s.len() == 0 {
        Seq::empty()
    } else if s.last() == ChunkStatus::Missing {
        missing_indices(s.drop_last()).push((s.len() - 1) as u32)
    } else {
        missing_indices(s.drop_last())
    }
}

/// No more chunks are received than the table has entries, and all of them
/// are received when the count reaches the table size.
pub proof fn lemma_received_count_bound(s: Seq<ChunkStatus>)
    ensures
        received_count(s) <= s.len(),
        received_count(s) == s.len() ==> forall|i: int|
            0 <= i < s.len() ==> s[i] == ChunkStatus::Received,
    decreases s.len(),
{
    if s.len() > 0 {
        lemma_received_count_bound(s.drop_last());
        if received_count(s) == s.len() {
            assert forall|i: int| 0 <= i < s.len() implies s[i] == ChunkStatus::Received by {
                if i < s.len() - 1 {
                    assert(s.drop_last()[i] == s[i]);
                }
            }
        }
    }
}

/// Marking a missing chunk received raises the count by one.
pub proof fn lemma_received_count_update(s: Seq<ChunkStatus>, i: int)
    requires
        0 <= i < s.len(),
        s[i] == ChunkStatus::Missing,
    ensures
        received_count(s.update(i, ChunkStatus::Received)) == received_count(s) + 1,
    decreases s.len(),
{
    let t = s.update(i, ChunkStatus::Received);
    if i == s.len() - 1 {
        assert(t.drop_last() =~= s.drop_last());
    } else {
        lemma_received_count_update(s.drop_last(), i);
        assert(t.drop_last() =~= s.drop_last().update(i, ChunkStatus::Received));
    }
}

/// A fresh table has no chunk received.
pub proof fn lemma_all_missing_count(n: nat)
    ensures
        received_count(Seq::new(n, |i: int| ChunkStatus::Missing)) == 0,
    decreases n,
{
    if n > 0 {
        lemma_all_missing_count((n - 1) as nat);
        assert(Seq::new(n, |i: int| ChunkStatus::Missing).drop_last() =~= Seq::new(
            (n - 1) as nat,
            |i: int| ChunkStatus::Missing,
        ));
    }
}

/// Receives one update.
pub struct OtaManager {
    state: OtaState,
    version: heapless::String<16>,
    total_chunks: u32,
    firmware_size: u32,
    chunk_status: heapless::Vec<ChunkStatus, 512>,
    chunks_received: u32,
    last_chunk_sequence: u32,
}

/// The mathematical content of an `OtaManager`.
pub struct OtaView {
    pub state: OtaState,
    pub version: Seq<char>,
    pub total_chunks: u32,
    pub firmware_size: u32,
    pub statuses: Seq<ChunkStatus>,
    pub chunks_received: u32,
    pub last_chunk_sequence: u32,
}

impl View for OtaManager {
    type V = OtaView;

    closed spec fn view(&self) -> OtaView {
        OtaView {
            state: self.state,
            version: version_chars(self.version),
            total_chunks: self.total_chunks,
            firmware_size: self.firmware_size,
            statuses: chunk_statuses(self.chunk_status),
            chunks_received: self.chunks_received,
            last_chunk_sequence: self.last_chunk_sequence,
        }
    }
}

/// The manager's invariant: the received counter counts the table; while
/// receiving the table has one entry per chunk; once ready every chunk is in.
pub open spec fn s2_ota_wf(v: OtaView) -> bool {
    &&& v.statuses.len() <= MAX_CHUNKS
    &&& v.chunks_received == received_count(v.statuses)
    &&& v.state == OtaState::ReceivingChunks ==> v.statuses.len() == v.total_chunks
    &&& v.state == OtaState::ReadyToApply ==> forall|i: int|
        0 <= i < v.statuses.len() ==> v.statuses[i] == ChunkStatus::Received
}

/// Whether a chunk's checksum matches its bytes.
pub open spec fn chunk_crc_ok(c: OtaChunkData) -> bool {
    crc32_iscsi(chunk_data_bytes(c.data)) == c.crc32
}

/// What announcing `start` does to a manager in state `o`, and the answer:
/// refused while another update runs; otherwise the update is taken on, and
/// fails if it has more chunks than the table holds.
pub open spec fn after_start(o: OtaView, start: OtaStartData) -> (Result<(), ()>, OtaView) {
    let n = start.total_chunks;
    if o.state != OtaState::Idle && o.state != OtaState::Failed {
        (Err(()), o)
    } else {
        let taken = OtaView {
            version: version_chars(start.version),
            total_chunks: n,
            firmware_size: start.firmware_size,
            chunks_received: 0,
            last_chunk_sequence: 0,
            ..o
        };
        if n <= MAX_CHUNKS {
            (
                Ok(()),
                OtaView {
                    state: OtaState::ReceivingChunks,
                    statuses: Seq::new(n as nat, |i: int| ChunkStatus::Missing),
                    ..taken
                },
            )
        } else {
            (
                Err(()),
                OtaView {
                    state: OtaState::Failed,
                    statuses: Seq::new(MAX_CHUNKS as nat, |i: int| ChunkStatus::Missing),
                    ..taken
                },
            )
        }
    }
}

/// What chunk `c` does to a manager in state `o`, and the answer.
pub open spec fn after_chunk(o: OtaView, c: OtaChunkData) -> (Result<bool, ()>, OtaView) {
    if o.state != OtaState::ReceivingChunks || c.sequence >= o.total_chunks || version_chars(
        c.version,
    ) != o.version {
        (Err(()), o)
    } else if o.statuses[c.sequence as int] == ChunkStatus::Received {
        (Ok(false), o)
    } else if !chunk_crc_ok(c) {
        (Err(()), o)
    } else {
        let received = (o.chunks_received + 1) as u32;
        (
            Ok(true),
            OtaView {
                statuses: o.statuses.update(c.sequence as int, ChunkStatus::Received),
                chunks_received: received,
                last_chunk_sequence: c.sequence,
                state: if received == o.total_chunks {
                    OtaState::ReadyToApply
                } else {
                    OtaState::ReceivingChunks
                },
                ..o
            },
        )
    }
}

/// Applying: a complete update leaves the node idle; refused otherwise.
pub open spec fn after_apply(o: OtaView) -> (Result<(), ()>, OtaView) {
    if o.state == OtaState::ReadyToApply {
        (Ok(()), OtaView { state: OtaState::Idle, ..o })
    } else {
        (Err(()), o)
    }
}

/// A manager in state `o` after its update is dropped.
pub open spec fn after_reset(o: OtaView) -> OtaView {
    OtaView {
        state: OtaState::Idle,
        version: Seq::empty(),
        total_chunks: 0,
        firmware_size: 0,
        statuses: Seq::empty(),
        chunks_received: 0,
        ..o
    }
}

impl OtaManager {
    pub closed spec fn wf(&self) -> bool {
        s2_ota_wf(self@)
    }

    /// No update in progress.
    pub fn new() -> (m: Self)
        ensures
            m.wf(),
            m@.state == OtaState::Idle,
            m@.version.len() == 0,
            m@.total_chunks == 0,
            m@.firmware_size == 0,
            m@.statuses.len() == 0,
            m@.chunks_received == 0,
            m@.last_chunk_sequence == 0,
    {
        OtaManager {
            state: OtaState::Idle,
            version: version_new(),
            total_chunks: 0,
            firmware_size: 0,
            chunk_status: status_table_new(),
            chunks_received: 0,
            last_chunk_sequence: 0,
        }
    }

    /// An update is announced. Refused while another runs; an update of
    /// more chunks than the table holds fails.
    pub fn start_update(&mut self, start_data: &OtaStartData) -> (r: Result<(), ()>)
        requires
            old(self).wf(),
        ensures
            final(self).wf(),
            (r, final(self)@) == after_start(old(self)@, *start_data),
    {
        if self.state != OtaState::Idle && self.state != OtaState::Failed {
            return Err(());
        }
        self.state = OtaState::WaitingForChunks;
        self.version = version_clone(&start_data.version);
        self.total_chunks = start_data.total_chunks;
        self.firmware_size = start_data.firmware_size;
        self.chunks_received = 0;
        self.last_chunk_sequence = 0;
        status_table_clear(&mut self.chunk_status);
        let mut i: u32 = 0;
        while i < start_data.total_chunks
            invariant
                i <= start_data.total_chunks,
                i <= MAX_CHUNKS,
                chunk_statuses(self.chunk_status) == Seq::new(i as nat, |k: int| ChunkStatus::Missing),
                self.state == OtaState::WaitingForChunks,
                version_chars(self.version) == version_chars(start_data.version),
                self.total_chunks == start_data.total_chunks,
                self.firmware_size == start_data.firmware_size,
                self.chunks_received == 0,
                self.last_chunk_sequence == 0,
                old(self)@.state == OtaState::Idle || old(self)@.state == OtaState::Failed,
            decreases start_data.total_chunks - i,
        {
            if !status_table_push(&mut self.chunk_status, ChunkStatus::Missing) {
                self.state = OtaState::Failed;
                proof {
                    lemma_all_missing_count(i as nat);
                }
                return Err(());
            }
            i = i + 1;
            assert(chunk_statuses(self.chunk_status) =~= Seq::new(
                i as nat,
                |k: int| ChunkStatus::Missing,
            ));
        }
        self.state = OtaState::ReceivingChunks;
        proof {
            lemma_all_missing_count(i as nat);
        }
        Ok(())
    }

    /// A chunk arrives from `node_mac`. Refused unless an update is being
    /// received, the chunk's number is in range, its version matches and its
    /// checksum is right; a chunk already held is accepted and changes
    /// nothing (`Ok(false)`); a new one is marked (`Ok(true)`), and the
    /// update becomes ready with the last one.
    pub fn handle_chunk(&mut self, chunk: &OtaChunkData, node_mac: [u8; 6]) -> (r: Result<bool, ()>)
        requires
            old(self).wf(),
        ensures
            final(self).wf(),
            (r, final(self)@) == after_chunk(old(self)@, *chunk),
    {
        if self.state != OtaState::ReceivingChunks {
            return Err(());
        }
        if chunk.sequence >= self.total_chunks {
            return Err(());
        }
        if !version_eq(&chunk.version, &self.version) {
            return Err(());
        }
        let seq = chunk.sequence as usize;
        if status_table_get(&self.chunk_status, seq) == ChunkStatus::Received {
            return Ok(false);
        }
        let calculated = checksum_iscsi(chunk_data_as_slice(&chunk.data));
        if calculated != chunk.crc32 {
            return Err(());
        }
        let ghost before = chunk_statuses(self.chunk_status);
        proof {
            lemma_received_count_update(before, seq as int);
            lemma_received_count_bound(before.update(seq as int, ChunkStatus::Received));
        }
        status_table_set(&mut self.chunk_status, seq, ChunkStatus::Received);
        self.chunks_received = self.chunks_received + 1;
        self.last_chunk_sequence = chunk.sequence;
        if self.chunks_received == self.total_chunks {
            self.state = OtaState::ReadyToApply;
        }
        Ok(true)
    }

    /// The first (at most 32) chunk numbers still missing, in increasing order.
    pub fn get_missing_chunks(&self) -> (r: heapless::Vec<u32, 32>)
        requires
            self.wf(),
        ensures
            sequence_list(r) == missing_indices(self@.statuses).take(
                if missing_indices(self@.statuses).len() < 32 {
                    missing_indices(self@.statuses).len() as int
                } else {
                    32
                },
            ),
    {
        let mut missing = sequence_list_new();
        let n = status_table_len(&self.chunk_status);
        let ghost s = chunk_statuses(self.chunk_status);
        let mut i: usize = 0;
        let mut full = false;
        while i < n && !full
            invariant
                n == s.len(),
                s == chunk_statuses(self.chunk_status),
                i <= n,
                n <= MAX_CHUNKS,
                !full ==> sequence_list(missing) == missing_indices(s.take(i as int)),
                !full ==> missing_indices(s.take(i as int)).len() <= 32,
                full ==> sequence_list(missing) == missing_indices(s).take(32),
                full ==> missing_indices(s).len() > 32,
            decreases n - i, if full { 0int } else { 1int },
        {
            let ghost t = s.take(i + 1);
            assert(t.drop_last() =~= s.take(i as int));
            assert(t.last() == s[i as int]);
            if status_table_get(&self.chunk_status, i) == ChunkStatus::Missing {
                if !sequence_list_push(&mut missing, i as u32) {
                    proof {
                        lemma_missing_prefix(s, (i + 1) as int);
                        lemma_missing_prefix(s, i as int);
                        assert(missing_indices(s).take(32) =~= missing_indices(s.take(i as int)));
                    }
                    full = true;
                } else {
                    i = i + 1;
                }
            } else {
                i = i + 1;
            }
        }
        proof {
            if !full {
                assert(s.take(n as int) =~= s);
                assert(missing_indices(s).take(missing_indices(s).len() as int) =~= missing_indices(s));
            }
        }
        missing
    }

    /// Whether the update is complete and may be applied.
    pub fn is_ready_to_apply(&self) -> (r: bool)
        ensures
            r == (self@.state == OtaState::ReadyToApply),
    {
        self.state == OtaState::ReadyToApply
    }

    /// Applies a complete update (the node is left idle); refused otherwise.
    pub fn apply_update(&mut self) -> (r: Result<(), ()>)
        requires
            old(self).wf(),
        ensures
            final(self).wf(),
            (r, final(self)@) == after_apply(old(self)@),
    {
        if self.state != OtaState::ReadyToApply {
            return Err(());
        }
        self.state = OtaState::Applying;
        self.state = OtaState::Idle;
        Ok(())
    }

    /// Drops the update in progress.
    pub fn reset(&mut self)
        requires
            old(self).wf(),
        ensures
            final(self).wf(),
            final(self)@ == after_reset(old(self)@),
    {
        self.state = OtaState::Idle;
        version_clear(&mut self.version);
        self.total_chunks = 0;
        self.firmware_size = 0;
        status_table_clear(&mut self.chunk_status);
        self.chunks_received = 0;
    }

    /// The current state.
    pub fn state(&self) -> (r: OtaState)
        ensures
            r == self@.state,
    {
        self.state
    }

    /// Received chunks in percent, rounded down; 0 with no chunks.
    pub fn progress_percent(&self) -> (r: u32)
        requires
            self.wf(),
        ensures
            self@.total_chunks == 0 ==> r == 0,
            self@.total_chunks > 0 ==> r == self@.chunks_received * 100 / self@.total_chunks as int,
    {
        if self.total_chunks == 0 {
            return 0;
        }
        proof {
            lemma_received_count_bound(chunk_statuses(self.chunk_status));
        }
        (self.chunks_received * 100) / self.total_chunks
    }
}

/// Passes an update announcement to the node's manager; refused before it is
/// set up.
pub fn start_update(manager: &mut Option<OtaManager>, start_data: &OtaStartData) -> (r: Result<
    (),
    (),
>)
    requires
        (*old(manager)) is Some ==> old(manager)->0.wf(),
    ensures
        (*old(manager)) is None ==> r is Err && (*final(manager)) is None,
        (*old(manager)) is Some ==> (*final(manager)) is Some && final(manager)->0.wf() && (
        r,
        final(manager)->0@,
        ) == after_start(old(manager)->0@, *start_data),
{
    match manager {
        Some(m) => m.start_update(start_data),
        None => Err(()),
    }
}

/// Passes a chunk from `node_mac` to the node's manager; refused before it is
/// set up.
pub fn handle_chunk(manager: &mut Option<OtaManager>, chunk: &OtaChunkData, node_mac: [u8; 6]) -> (r:
    Result<bool, ()>)
    requires
        (*old(manager)) is Some ==> old(manager)->0.wf(),
    ensures
        (*old(manager)) is None ==> r is Err && (*final(manager)) is None,
        (*old(manager)) is Some ==> (*final(manager)) is Some && final(manager)->0.wf() && (
        r,
        final(manager)->0@,
        ) == after_chunk(old(manager)->0@, *chunk),
{
    match manager {
        Some(m) => m.handle_chunk(chunk, node_mac),
        None => Err(()),
    }
}

/// The node's missing chunk numbers (at most 32); none before its manager is
/// set up.
pub fn get_missing_chunks(manager: &Option<OtaManager>) -> (r: heapless::Vec<u32, 32>)
    requires
        manager is Some ==> manager->0.wf(),
    ensures
        manager is None ==> sequence_list(r) == Seq::<u32>::empty(),
        manager is Some ==> ({
            let m = missing_indices(manager->0@.statuses);
            sequence_list(r) == m.take(
                if m.len() < 32 {
                    m.len() as int
                } else {
                    32
                },
            )
        }),
{
    match manager {
        Some(m) => m.get_missing_chunks(),
        None => sequence_list_new(),
    }
}

/// Whether the node's update is ready to apply; not before its manager is
/// set up.
pub fn is_ready_to_apply(manager: &Option<OtaManager>) -> (r: bool)
    ensures
        r == (manager is Some && manager->0@.state == OtaState::ReadyToApply),
{
    match manager {
        Some(m) => m.is_ready_to_apply(),
        None => false,
    }
}

/// Applies the node's update; refused before its manager is set up.
pub fn apply_update(manager: &mut Option<OtaManager>) -> (r: Result<(), ()>)
    requires
        (*old(manager)) is Some ==> old(manager)->0.wf(),
    ensures
        (*old(manager)) is None ==> r is Err && (*final(manager)) is None,
        (*old(manager)) is Some ==> (*final(manager)) is Some && final(manager)->0.wf() && (
        r,
        final(manager)->0@,
        ) == after_apply(old(manager)->0@),
{
    match manager {
        Some(m) => m.apply_update(),
        None => Err(()),
    }
}

/// `(received, total)` chunk counts of the node's update; `(0, 0)` before its
/// manager is set up.
pub fn get_progress(manager: &Option<OtaManager>) -> (r: (u32, u32))
    ensures
        manager is None ==> r == (0u32, 0u32),
        manager is Some ==> r == (manager->0@.chunks_received, manager->0@.total_chunks),
{
    match manager {
        Some(m) => (m.chunks_received, m.total_chunks),
        None => (0, 0),
    }
}

/// Drops the node's update in progress, once its manager is set up.
pub fn reset(manager: &mut Option<OtaManager>)
    requires
        (*old(manager)) is Some ==> old(manager)->0.wf(),
    ensures
        (*old(manager)) is None ==> (*final(manager)) is None,
        (*old(manager)) is Some ==> (*final(manager)) is Some && final(manager)->0.wf()
            && final(manager)->0@ == after_reset(old(manager)->0@),
{
    match manager {
        Some(m) => m.reset(),
        None => {},
    }
}

/// The manager after the chunks `cs` arrive in turn.
pub open spec fn after_chunks(o: OtaView, cs: Seq<OtaChunkData>) -> OtaView
    decreases cs.len(),
{
    if cs.len() == 0 {
        o
    } else {
        after_chunk(after_chunks(o, cs.drop_last()), cs.last()).1
    }
}

/// A table of `n` chunks of which the first `k` have arrived.
pub open spec fn first_received(n: nat, k: int) -> Seq<ChunkStatus> {
    Seq::new(
        n,
        |i: int|
            if i < k {
                ChunkStatus::Received
            } else {
                ChunkStatus::Missing
            },
    )
}

/// Whether `cs` are the chunks of the update that `start` announces, in
/// order, each with the announced version and a right checksum.
pub open spec fn delivers(start: OtaStartData, cs: Seq<OtaChunkData>) -> bool {
    &&& cs.len() == start.total_chunks
    &&& forall|i: int|
        0 <= i < cs.len() ==> {
            &&& (#[trigger] cs[i]).sequence == i
            &&& version_chars(cs[i].version) == version_chars(start.version)
            &&& chunk_crc_ok(cs[i])
        }
}

proof fn lemma_partial_delivery(o: OtaView, start: OtaStartData, cs: Seq<OtaChunkData>, k: int)
    requires
        o.state == OtaState::Idle || o.state == OtaState::Failed,
        1 <= start.total_chunks <= MAX_CHUNKS,
        delivers(start, cs),
        0 <= k <= cs.len(),
    ensures
        ({
            let v = after_chunks(after_start(o, start).1, cs.take(k));
            &&& v.total_chunks == start.total_chunks
            &&& v.version == version_chars(start.version)
            &&& v.chunks_received == k
            &&& v.statuses == first_received(start.total_chunks as nat, k)
            &&& v.state == if k == cs.len() {
                OtaState::ReadyToApply
            } else {
                OtaState::ReceivingChunks
            }
        }),
    decreases k,
{
    let n = start.total_chunks;
    let v0 = after_start(o, start).1;
    if k == 0 {
        assert(cs.take(0) =~= Seq::<OtaChunkData>::empty());
        assert(v0.statuses =~= first_received(n as nat, 0));
    } else {
        lemma_partial_delivery(o, start, cs, k - 1);
        let t = cs.take(k);
        assert(t.drop_last() =~= cs.take(k - 1));
        assert(t.last() == cs[k - 1]);
        let prev = after_chunks(v0, cs.take(k - 1));
        let c = cs[k - 1];
        assert(c.sequence == k - 1);
        assert(prev.statuses[k - 1] == ChunkStatus::Missing);
        assert(prev.statuses.update(k - 1, ChunkStatus::Received) =~= first_received(
            n as nat,
            k,
        ));
    }
}

/// An idle or failed node that is announced an update of 1 to 512
/// chunks and then receives each chunk in order, with the announced version
/// and a right checksum, takes the announcement and ends ready to apply.
pub proof fn lemma_full_delivery_ready(o: OtaView, start: OtaStartData, cs: Seq<OtaChunkData>)
    requires
        o.state == OtaState::Idle || o.state == OtaState::Failed,
        1 <= start.total_chunks <= MAX_CHUNKS,
        delivers(start, cs),
    ensures
        after_start(o, start).0 is Ok,
        after_chunks(after_start(o, start).1, cs).state == OtaState::ReadyToApply,
        after_chunks(after_start(o, start).1, cs).chunks_received == start.total_chunks,
{
    lemma_partial_delivery(o, start, cs, cs.len() as int);
    assert(cs.take(cs.len() as int) =~= cs);
}

/// The missing numbers among the first `k` entries are a prefix of all
/// missing numbers.
pub proof fn lemma_missing_prefix(s: Seq<ChunkStatus>, k: int)
    requires
        0 <= k <= s.len(),
    ensures
        missing_indices(s.take(k)) == missing_indices(s).take(missing_indices(s.take(k)).len() as int),
        missing_indices(s.take(k)).len() <= missing_indices(s).len(),
    decreases s.len() - k,
{
    if k == s.len() {
        assert(s.take(k) =~= s);
        assert(missing_indices(s).take(missing_indices(s).len() as int) =~= missing_indices(s));
    } else {
        lemma_missing_prefix(s, k + 1);
        let t = s.take(k + 1);
        assert(t.drop_last() =~= s.take(k));
        let a = missing_indices(s.take(k));
        let b = missing_indices(t);
        let all = missing_indices(s);
        if t.last() == ChunkStatus::Missing {
            assert(b == a.push(k as u32));
            assert(all.take(a.len() as int) =~= b.take(a.len() as int));
            assert(b.take(a.len() as int) =~= a);
        } else {
            assert(b == a);
        }
    }
}

/// An update is ready exactly when every announced chunk has arrived.
pub proof fn lemma_ready_means_complete(v: OtaView)
    requires
        s2_ota_wf(v),
        v.state == OtaState::ReadyToApply,
    ensures
        forall|i: int| 0 <= i < v.statuses.len() ==> v.statuses[i] == ChunkStatus::Received,
        missing_indices(v.statuses).len() == 0,
{
    lemma_no_missing(v.statuses);
}

/// A table with every chunk received has no missing numbers.
pub proof fn lemma_no_missing(s: Seq<ChunkStatus>)
    requires
        forall|i: int| 0 <= i < s.len() ==> s[i] == ChunkStatus::Received,
    ensures
        missing_indices(s).len() == 0,
    decreases s.len(),
{
    if s.len() > 0 {
        lemma_no_missing(s.drop_last());
    }
}

} // verus!
