//! Over-the-air firmware updates across the mesh: the root cuts the image
//! into checksummed chunks and tracks which nodes hold which chunk; a child
//! validates chunks, puts them back in order and hands them out for writing
//! exactly once each.
//!
//! Flash writes, HTTP transfers and reboots are done by the caller: the
//! manager says what to write or fetch next and is told what came back.

use vstd::prelude::*;
use std::collections::{HashMap, HashSet};
use crate::checksum::{
    checksum_iso_hdlc, crc32_iso_hdlc, differ_only_at, lemma_one_changed_byte_is_caught,
};
use crate::version::{GitHubRelease, Version, VersionError, version_gt, current_version,
    parse_version_spec, is_update_available};

verus! {

broadcast use vstd::std_specs::hash::group_hash_axioms;

/// Size of one firmware chunk sent over the mesh, in bytes.
pub const CHUNK_SIZE: usize = 512;

/// State of an update, as reported to the rest of the firmware.
#[derive(Debug, Clone, Copy, PartialEq, Eq, Structural)]
pub enum OtaState {
    /// No update in progress.
    Idle,
    /// Root: downloading the image from the server.
    Downloading { progress: u32, total: u32 },
    /// Root: handing chunks out to the mesh.
    Distributing { total_chunks: u32, nodes_complete: u32, total_nodes: u32 },
    /// Child: receiving chunks.
    Receiving { received_chunks: u32, total_chunks: u32 },
    /// The image is complete; waiting for the reboot command.
    ReadyToReboot,
    /// Rebooting.
    Rebooting,
}

/// One piece of a firmware image, with the CRC-32 of its bytes.
pub struct FirmwareChunk {
    pub sequence: u32,
    pub total_chunks: u32,
    pub version: String,
    pub data: Vec<u8>,
    pub crc32: u32,
}

/// Whether the checksum that a chunk carries matches its bytes.
pub open spec fn chunk_is_valid(c: FirmwareChunk) -> bool {
    crc32_iso_hdlc(c.data@) == c.crc32
}

impl FirmwareChunk {
    /// A chunk whose checksum is computed from `data`.
    pub fn new(sequence: u32, total_chunks: u32, version: String, data: Vec<u8>) -> (c: Self)
        ensures
            c.sequence == sequence,
            c.total_chunks == total_chunks,
            c.version == version,
            c.data == data,
            c.crc32 == crc32_iso_hdlc(data@),
            chunk_is_valid(c),
    {
        let crc32 = checksum_iso_hdlc(data.as_slice());
        FirmwareChunk { sequence, total_chunks, version, data, crc32 }
    }

    /// Whether the chunk's bytes still match its checksum.
    pub fn validate(&self) -> (r: bool)
        ensures
            r == chunk_is_valid(*self),
    {
        let calculated = checksum_iso_hdlc(self.data.as_slice());
        calculated == self.crc32
    }
}

/// Number of chunks an image of `len` bytes is cut into.
pub open spec fn chunk_count(len: nat) -> nat {
    (len + 511) / 512
}

/// The bytes of chunk `i` of `data`.
pub open spec fn chunk_bytes(data: Seq<u8>, i: int) -> Seq<u8> {
    let end = if (i + 1) * 512 <= data.len() {
        (i + 1) * 512
    } else {
        data.len() as int
    };
    data.subrange(i * 512, end)
}

/// The bytes of a run of chunks, one after the other.
pub open spec fn joined(chunks: Seq<FirmwareChunk>) -> Seq<u8>
    decreases chunks.len(),
{
    if chunks.len() == 0 {
        Seq::empty()
    } else {
        joined(chunks.drop_last()) + chunks.last().data@
    }
}

/// Where chunk `k` of an image of `len` bytes starts, when it is no later
/// than the end.
pub open spec fn prefix_end(len: nat, k: int) -> int {
    if k * 512 <= len {
        k * 512
    } else {
        len as int
    }
}

proof fn lemma_joined_prefix(data: Seq<u8>, chunks: Seq<FirmwareChunk>, k: int)
    requires
        chunks.len() == chunk_count(data.len()),
        0 <= k <= chunks.len(),
        forall|i: int| 0 <= i < chunks.len() ==> (#[trigger] chunks[i]).data@ == chunk_bytes(data, i),
    ensures
        joined(chunks.take(k)) == data.take(prefix_end(data.len(), k)),
    decreases k,
{
    if k == 0 {
        assert(chunks.take(0) =~= Seq::<FirmwareChunk>::empty());
        assert(data.take(0) =~= Seq::<u8>::empty());
    } else {
        let n = data.len();
        lemma_joined_prefix(data, chunks, k - 1);
        assert(chunks.take(k).drop_last() =~= chunks.take(k - 1));
        assert(chunks.take(k).last() == chunks[k - 1]);
        assert((k - 1) * 512 < n) by (nonlinear_arith)
            requires
                k - 1 < (n + 511) / 512,
                k >= 1,
        ;
        assert(prefix_end(n, k - 1) == (k - 1) * 512);
        assert(data.take((k - 1) * 512) + chunk_bytes(data, k - 1) =~= data.take(
            prefix_end(n, k),
        ));
    }
}

/// Cutting an image into chunks loses nothing and adds nothing: the chunks'
/// bytes, one after the other, are the image again.
pub proof fn lemma_fragments_rebuild_image(data: Seq<u8>, chunks: Seq<FirmwareChunk>)
    requires
        chunks.len() == chunk_count(data.len()),
        forall|i: int| 0 <= i < chunks.len() ==> (#[trigger] chunks[i]).data@ == chunk_bytes(data, i),
    ensures
        joined(chunks) == data,
{
    let n = data.len();
    lemma_joined_prefix(data, chunks, chunks.len() as int);
    assert(chunks.take(chunks.len() as int) =~= chunks);
    assert(chunks.len() * 512 >= n) by (nonlinear_arith)
        requires
            chunks.len() == (n + 511) / 512,
    ;
    assert(data.take(n as int) =~= data);
}

/// Cuts a firmware image into checksummed chunks of `CHUNK_SIZE` bytes (the
/// last one shorter), numbered from 0, all tagged with `version`; their
/// bytes, one after the other, are the image.
pub fn fragment_firmware(data: &Vec<u8>, version: &String) -> (chunks: Vec<FirmwareChunk>)
    requires
        chunk_count(data@.len()) <= u32::MAX,
    ensures
        chunks@.len() == chunk_count(data@.len()),
        forall|i: int|
            0 <= i < chunks@.len() ==> {
                &&& (#[trigger] chunks@[i]).sequence == i
                &&& chunks@[i].total_chunks == chunk_count(data@.len())
                &&& chunks@[i].version@ == version@
                &&& chunks@[i].data@ == chunk_bytes(data@, i)
                &&& chunk_is_valid(chunks@[i])
            },
        joined(chunks@) == data@,
{
    let len = data.len();
    let total: usize = len / 512 + if len % 512 == 0 {
        0
    } else {
        1
    };
    assert(total == chunk_count(len as nat));
    let mut chunks: Vec<FirmwareChunk> = Vec::new();
    let mut i: usize = 0;
    while i < total
        invariant
            len == data@.len(),
            total == chunk_count(len as nat),
            total <= u32::MAX,
            i <= total,
            chunks@.len() == i,
            forall|k: int|
                0 <= k < i ==> {
                    &&& (#[trigger] chunks@[k]).sequence == k
                    &&& chunks@[k].total_chunks == total
                    &&& chunks@[k].version@ == version@
                    &&& chunks@[k].data@ == chunk_bytes(data@, k)
                    &&& chunk_is_valid(chunks@[k])
                },
        decreases total - i,
    {
        assert(i * 512 < len) by (nonlinear_arith)
            requires
                i < total,
                total == (len + 511) / 512,
        ;
        let start: usize = i * 512;
        let end: usize = if len - start >= 512 {
            start + 512
        } else {
            len
        };
        assert(end == if (i + 1) * 512 <= len {
            (i + 1) * 512
        } else {
            len as int
        });
        let piece = vstd::slice::slice_subrange(data.as_slice(), start, end);
        let bytes = vstd::slice::slice_to_vec(piece);
        let chunk = FirmwareChunk::new(i as u32, total as u32, version.clone(), bytes);
        chunks.push(chunk);
        i = i + 1;
    }
    proof {
        lemma_fragments_rebuild_image(data@, chunks@);
    }
    chunks
}

/// Messages of the update protocol, sent over the mesh.
pub enum OtaMessage {
    /// Root to all: check the server for an update.
    CheckUpdate,
    /// Root to all: an update starts.
    OtaStart { version: String, total_chunks: u32, firmware_size: u32 },
    /// Root to all: one chunk.
    OtaChunk { chunk: FirmwareChunk },
    /// Child to root: a chunk arrived, or failed to.
    OtaChunkAck { sequence: u32, success: bool },
    /// Child to root: please send these chunks again.
    OtaChunkRequest { sequences: Vec<u32> },
    /// Child to root: every chunk arrived.
    OtaComplete,
    /// Root to all: reboot now.
    OtaReboot,
    /// Root to all: the update was called off.
    OtaCancel { reason: String },
}

/// What the root knows of one node during distribution.
pub struct NodeProgress {
    pub mac: String,
    pub received_chunks: HashSet<u32>,
    pub ready: bool,
}

/// The mathematical content of a `NodeProgress`.
pub struct NodeView {
    pub mac: Seq<char>,
    pub received: Set<u32>,
    pub ready: bool,
}

impl View for NodeProgress {
    type V = NodeView;

    open spec fn view(&self) -> NodeView {
        NodeView { mac: self.mac@, received: self.received_chunks@, ready: self.ready }
    }
}

impl NodeProgress {
    /// A node that has acknowledged nothing yet.
    pub fn new(mac: String) -> (n: Self)
        ensures
            n@ == (NodeView { mac: mac@, received: Set::<u32>::empty(), ready: false }),
    {
        NodeProgress { mac, received_chunks: HashSet::new(), ready: false }
    }

    /// Whether the node acknowledged as many distinct chunks as there are.
    pub fn is_complete(&self, total_chunks: u32) -> (r: bool)
        ensures
            r == (self@.received.len() == total_chunks),
    {
        self.received_chunks.len() == total_chunks as usize
    }
}

/// Why an update step was refused.
#[derive(Debug, Clone, Copy, PartialEq, Eq, Structural)]
pub enum OtaError {
    /// A chunk was to be written while no update was open.
    NoActiveUpdate,
    /// A chunk number at or past the number of chunks.
    SequenceOutOfRange { sequence: u32, total: u32 },
    /// The server answered with this HTTP status.
    BadStatus { status: u16 },
    /// The server's answer could not be read as a release.
    InvalidRelease,
    /// The release's version could not be parsed.
    InvalidVersion { error: VersionError },
    /// More bytes arrived for a download range than it spans.
    TooMuchData { received: u32, expected: u32 },
    /// Fewer bytes arrived for a download range than it spans.
    IncompleteChunk { received: u32, expected: u32 },
    /// A download range failed on every try.
    RetriesExhausted,
    /// The partition bytes for a chunk have the wrong length.
    ChunkLengthMismatch { length: u32, expected: u32 },
}

/// The mathematical content of an `OtaManager`.
pub struct OtaManagerView {
    pub state: OtaState,
    pub chunks: Seq<FirmwareChunk>,
    pub nodes: Seq<NodeView>,
    pub buffered: Map<u32, FirmwareChunk>,
    pub next_expected: u32,
    pub total_chunks: u32,
    pub target_version: Option<Version>,
    pub firmware_size: u32,
    pub firmware_total_chunks: u32,
    pub firmware_version: Seq<char>,
    pub update_active: bool,
    pub download_expected: u32,
    pub download_offset: u32,
    pub download_retries: u32,
}

/// Drives one update, on the root or on a child.
pub struct OtaManager {
    state: OtaState,
    chunks: Vec<FirmwareChunk>,
    node_progress: Vec<NodeProgress>,
    received_chunks_buffer: HashMap<u32, FirmwareChunk>,
    next_expected_sequence: u32,
    total_chunks: u32,
    target_version: Option<Version>,
    firmware_size: u32,
    firmware_total_chunks: u32,
    firmware_version: String,
    update_active: bool,
    download_expected: u32,
    download_offset: u32,
    download_retries: u32,
}

impl View for OtaManager {
    type V = OtaManagerView;

    closed spec fn view(&self) -> OtaManagerView {
        OtaManagerView {
            state: self.state,
            chunks: self.chunks@,
            nodes: self.node_progress@.map_values(|n: NodeProgress| n@),
            buffered: self.received_chunks_buffer@,
            next_expected: self.next_expected_sequence,
            total_chunks: self.total_chunks,
            target_version: self.target_version,
            firmware_size: self.firmware_size,
            firmware_total_chunks: self.firmware_total_chunks,
            firmware_version: self.firmware_version@,
            update_active: self.update_active,
            download_expected: self.download_expected,
            download_offset: self.download_offset,
            download_retries: self.download_retries,
        }
    }
}

/// Invariant of the manager's content: each buffered chunk sits under its
/// own number and passed its checksum, and each node is listed once.
pub open spec fn ota_view_wf(v: OtaManagerView) -> bool {
    &&& forall|k: u32|
        #[trigger] v.buffered.contains_key(k) ==> {
            &&& v.buffered[k].sequence == k
            &&& chunk_is_valid(v.buffered[k])
        }
    &&& forall|i: int, j: int|
        0 <= i < j < v.nodes.len() ==> (#[trigger] v.nodes[i]).mac != (#[trigger] v.nodes[j]).mac
    &&& v.download_offset <= v.download_expected
    &&& v.firmware_total_chunks <= chunk_count(v.firmware_size as nat)
    &&& v.download_retries <= MAX_DOWNLOAD_RETRIES
}

/// The position of the node with address `mac`, if one is listed.
pub open spec fn find_node(nodes: Seq<NodeView>, mac: Seq<char>) -> Option<int> {
    if exists|i: int| 0 <= i < nodes.len() && (#[trigger] nodes[i]).mac == mac {
        Some(choose|i: int| 0 <= i < nodes.len() && (#[trigger] nodes[i]).mac == mac)
    } else {
        None
    }
}

/// A node's record after it acknowledged `sequence` (with `success`).
pub open spec fn acked(n: NodeView, sequence: u32, success: bool) -> NodeView {
    NodeView { received: if success { n.received.insert(sequence) } else { n.received }, ..n }
}

/// Length of chunk `sequence` of the image being handed out.
pub open spec fn span_len(v: OtaManagerView, sequence: u32) -> int {
    if v.firmware_size - sequence * 512 >= 512 {
        512
    } else {
        v.firmware_size - sequence * 512
    }
}

/// Size of one range request while the root downloads an image.
pub const DOWNLOAD_RANGE: u32 = 51200;

/// Tries per range before the download is given up.
pub const MAX_DOWNLOAD_RETRIES: u32 = 3;

/// The last byte of the range request that starts at `offset`.
pub open spec fn range_end(offset: u32, expected: u32) -> u32 {
    if offset + DOWNLOAD_RANGE <= expected {
        (offset + DOWNLOAD_RANGE - 1) as u32
    } else {
        (expected - 1) as u32
    }
}

/// What the root is to do next while downloading an image.
#[derive(Debug, Clone, Copy, PartialEq, Eq, Structural)]
pub enum DownloadStep {
    /// Request bytes `start..=end` and write them to the update partition.
    Fetch { start: u32, end: u32 },
    /// The last request failed: wait, then request the same range again.
    Retry { start: u32, end: u32, attempt: u32 },
    /// Every byte arrived.
    Finished { total: u32 },
    /// A range failed on every try.
    Failed { error: OtaError },
}

/// How a range request ended.
#[derive(Debug, Clone, Copy, PartialEq, Eq, Structural)]
pub enum RangeOutcome {
    /// The server answered with `status`, and `bytes` bytes of the body were
    /// written; the body is read only when `range_body_accepted(status)`, so
    /// under any other status `bytes` is 0.
    Received { status: u16, bytes: u32 },
    /// The request or a write failed.
    TransportError,
}

/// Whether the body of a range answer with `status` is read and written to
/// the update partition: only for 200 or 206. Under any other status the
/// request fails before a byte is written.
pub fn range_body_accepted(status: u16) -> (r: bool)
    ensures
        r == (status == 200 || status == 206),
{
    status == 200 || status == 206
}

/// The step that follows a download position.
pub open spec fn next_download_step(v: OtaManagerView) -> DownloadStep {
    if v.download_offset < v.download_expected {
        DownloadStep::Fetch {
            start: v.download_offset,
            end: range_end(v.download_offset, v.download_expected),
        }
    } else {
        DownloadStep::Finished { total: v.download_offset }
    }
}

/// The error a range request's answer carries, if any.
pub open spec fn range_error(outcome: RangeOutcome, expected_len: u32) -> Option<OtaError> {
    match outcome {
        RangeOutcome::TransportError => Some(OtaError::RetriesExhausted),
        RangeOutcome::Received { status, bytes } => if status != 200 && status != 206 {
            Some(OtaError::BadStatus { status })
        } else if bytes > expected_len {
            Some(OtaError::TooMuchData { received: bytes, expected: expected_len })
        } else if bytes != expected_len {
            Some(OtaError::IncompleteChunk { received: bytes, expected: expected_len })
        } else {
            None
        },
    }
}

/// The chunk numbers in `[next, total)` that are neither written nor buffered.
pub open spec fn is_missing(v: OtaManagerView, seq: u32) -> bool {
    v.next_expected <= seq < v.total_chunks && !v.buffered.contains_key(seq)
}

/// Entries `1..` of `writes` are the buffered chunks numbered `start + 1`,
/// `start + 2`, and so on.
pub open spec fn buffered_run(buffered: Map<u32, FirmwareChunk>, start: u32, writes: Seq<FirmwareChunk>) -> bool {
    &&& forall|k: u32| start < k < start + writes.len() ==> #[trigger] buffered.contains_key(k)
    &&& forall|i: int| 1 <= i < writes.len() ==> #[trigger] writes[i] == buffered[(start + i) as u32]
}

/// Whether the run of chunks that an in-order chunk would hand out ends
/// before the last chunk number: some number past the next one in line is
/// not kept aside. (Past the last number the counter could not advance.)
pub open spec fn run_fits(o: OtaManagerView) -> bool {
    exists|k: u32| o.next_expected < k && !#[trigger] o.buffered.contains_key(k)
}

/// What an in-order chunk does to a child: it and the buffered run behind
/// it are handed out for writing, in sequence, and leave the buffer.
pub open spec fn in_order_step(
    o: OtaManagerView,
    chunk: FirmwareChunk,
    n: OtaManagerView,
    writes: Seq<FirmwareChunk>,
    complete: bool,
) -> bool {
    let next = n.next_expected;
    &&& o.next_expected < next
    &&& writes.len() == next - o.next_expected
    &&& writes[0] == chunk
    &&& buffered_run(o.buffered, o.next_expected, writes)
    &&& !o.buffered.contains_key(next)
    &&& n.buffered == o.buffered.remove_keys(
        Set::new(|k: u32| o.next_expected < k && k < next),
    )
    &&& complete == (next == chunk.total_chunks)
    &&& n.state == if complete {
        OtaState::ReadyToReboot
    } else {
        OtaState::Receiving { received_chunks: next, total_chunks: chunk.total_chunks }
    }
    &&& n.update_active == (o.update_active && !complete)
    &&& n == (OtaManagerView {
        state: n.state,
        buffered: n.buffered,
        next_expected: n.next_expected,
        update_active: n.update_active,
        ..o
    })
}

/// What a child is asked to do with a chunk it was handed: write these, in
/// order, and finish the image when `complete`.
pub struct ChunkProgress {
    pub to_write: Vec<FirmwareChunk>,
    pub complete: bool,
}

impl OtaManager {
    /// The well-formedness invariant that every method keeps.
    pub closed spec fn wf(&self) -> bool {
        ota_view_wf(self@)
    }

    /// A manager with no update in progress.
    pub fn new() -> (m: Self)
        ensures
            m.wf(),
            m@ == (OtaManagerView {
                state: OtaState::Idle,
                chunks: Seq::empty(),
                nodes: Seq::empty(),
                buffered: Map::empty(),
                next_expected: 0,
                total_chunks: 0,
                target_version: None,
                firmware_size: 0,
                firmware_total_chunks: 0,
                firmware_version: Seq::empty(),
                update_active: false,
                download_expected: 0,
                download_offset: 0,
                download_retries: 0,
            }),
    {
        let m = OtaManager {
            state: OtaState::Idle,
            chunks: Vec::new(),
            node_progress: Vec::new(),
            received_chunks_buffer: HashMap::new(),
            next_expected_sequence: 0,
            total_chunks: 0,
            target_version: None,
            firmware_size: 0,
            firmware_total_chunks: 0,
            firmware_version: String::new(),
            update_active: false,
            download_expected: 0,
            download_offset: 0,
            download_retries: 0,
        };
        assert(m@.nodes =~= Seq::<NodeView>::empty());
        m
    }

    /// The current state.
    pub fn get_state(&self) -> (s: OtaState)
        ensures
            s == self@.state,
    {
        self.state
    }

    /// Child: an update of `total_chunks` chunks opens; nothing is written yet.
    pub fn start_ota_reception(&mut self, total_chunks: u32, firmware_size: u32)
        requires
            old(self).wf(),
        ensures
            final(self).wf(),
            final(self)@ == (OtaManagerView {
                total_chunks,
                next_expected: 0,
                buffered: Map::empty(),
                update_active: true,
                state: OtaState::Receiving { received_chunks: 0, total_chunks },
                ..old(self)@
            }),
    {
        self.total_chunks = total_chunks;
        self.next_expected_sequence = 0;
        self.received_chunks_buffer.clear();
        self.update_active = true;
        self.state = OtaState::Receiving { received_chunks: 0, total_chunks };
        assert(self@.buffered =~= Map::<u32, FirmwareChunk>::empty());
    }

    /// Child: takes one chunk. A chunk whose checksum fails is dropped; one
    /// that is not the next in line is kept aside; the next in line is handed
    /// out for writing together with the run of kept chunks behind it.
    pub fn handle_chunk(&mut self, chunk: FirmwareChunk) -> (r: Result<ChunkProgress, OtaError>)
        requires
            old(self).wf(),
            chunk_is_valid(chunk) && chunk.sequence == old(self)@.next_expected && old(
                self,
            )@.update_active ==> run_fits(old(self)@),
        ensures
            final(self).wf(),
            (r is Err) <==> (chunk_is_valid(chunk) && chunk.sequence == old(self)@.next_expected
                && !old(self)@.update_active),
            r is Err ==> r->Err_0 == OtaError::NoActiveUpdate && final(self)@ == old(self)@,
            r is Ok && !chunk_is_valid(chunk) ==> final(self)@ == old(self)@
                && r->Ok_0.to_write@.len() == 0 && !r->Ok_0.complete,
            r is Ok && chunk_is_valid(chunk) && chunk.sequence != old(self)@.next_expected
                ==> final(self)@ == (OtaManagerView {
                buffered: old(self)@.buffered.insert(chunk.sequence, chunk),
                ..old(self)@
            }) && r->Ok_0.to_write@.len() == 0 && !r->Ok_0.complete,
            r is Ok && chunk_is_valid(chunk) && chunk.sequence == old(self)@.next_expected
                ==> in_order_step(
                old(self)@,
                chunk,
                final(self)@,
                r->Ok_0.to_write@,
                r->Ok_0.complete,
            ),
    {
        if !chunk.validate() {
            return Ok(ChunkProgress { to_write: Vec::new(), complete: false });
        }
        if chunk.sequence != self.next_expected_sequence {
            let seq = chunk.sequence;
            self.received_chunks_buffer.insert(seq, chunk);
            return Ok(ChunkProgress { to_write: Vec::new(), complete: false });
        }
        if !self.update_active {
            return Err(OtaError::NoActiveUpdate);
        }
        let ghost o = self@;
        let ghost gap = choose|k: u32| o.next_expected < k && !#[trigger] o.buffered.contains_key(k);
        let total = chunk.total_chunks;
        let mut writes: Vec<FirmwareChunk> = Vec::new();
        writes.push(chunk);
        self.next_expected_sequence = self.next_expected_sequence + 1;
        loop
            invariant_except_break
                ota_view_wf(o),
                o.next_expected < gap,
                !o.buffered.contains_key(gap),
                self.wf(),
                o.next_expected < self.next_expected_sequence,
                writes@.len() == self.next_expected_sequence - o.next_expected,
                writes@[0] == chunk,
                total == chunk.total_chunks,
                buffered_run(o.buffered, o.next_expected, writes@),
                self@.buffered == o.buffered.remove_keys(
                    Set::new(|k: u32| o.next_expected < k && k < self.next_expected_sequence),
                ),
                self@ == (OtaManagerView {
                    buffered: self@.buffered,
                    next_expected: self@.next_expected,
                    ..o
                }),
            ensures
                ota_view_wf(o),
                self.wf(),
                o.next_expected < self.next_expected_sequence,
                writes@.len() == self.next_expected_sequence - o.next_expected,
                writes@[0] == chunk,
                total == chunk.total_chunks,
                buffered_run(o.buffered, o.next_expected, writes@),
                !o.buffered.contains_key(self.next_expected_sequence),
                self@.buffered == o.buffered.remove_keys(
                    Set::new(|k: u32| o.next_expected < k && k < self.next_expected_sequence),
                ),
                self@ == (OtaManagerView {
                    buffered: self@.buffered,
                    next_expected: self@.next_expected,
                    ..o
                }),
            decreases self@.buffered.dom().len(),
        {
            let next_seq = self.next_expected_sequence;
            let ghost before = self@.buffered;
            proof {
                vstd::std_specs::hash::axiom_hashmap_view_finite_dom(self.received_chunks_buffer);
            }
            match self.received_chunks_buffer.remove(&next_seq) {
                Some(buffered) => {
                    assert(before.contains_key(next_seq));
                    assert(o.buffered.contains_key(next_seq));
                    assert(next_seq < gap) by {
                        if next_seq >= gap {
                            assert(o.next_expected < gap < self.next_expected_sequence);
                            assert(o.buffered.contains_key(gap));
                        }
                    }
                    assert(buffered == o.buffered[next_seq]);
                    let ghost old_writes = writes@;
                    writes.push(buffered);
                    assert forall|i: int| 1 <= i < writes@.len() implies #[trigger] writes@[i]
                        == o.buffered[(o.next_expected + i) as u32] by {
                        if i < old_writes.len() {
                            assert(writes@[i] == old_writes[i]);
                        } else {
                            assert((o.next_expected + i) as u32 == next_seq);
                        }
                    }
                    assert(buffered_run(o.buffered, o.next_expected, writes@));
                    self.next_expected_sequence = next_seq + 1;
                    assert(self@.buffered =~= o.buffered.remove_keys(
                        Set::new(|k: u32| o.next_expected < k && k < self.next_expected_sequence),
                    ));
                    assert(before.dom().remove(next_seq).len() < before.dom().len());
                },
                None => {
                    assert(!o.buffered.contains_key(next_seq)) by {
                        if o.buffered.contains_key(next_seq) {
                            assert(before.contains_key(next_seq));
                        }
                    }
                    break ;
                },
            }
        }
        let received = self.next_expected_sequence;
        let complete = received == total;
        if complete {
            self.update_active = false;
            self.state = OtaState::ReadyToReboot;
        } else {
            self.state = OtaState::Receiving { received_chunks: received, total_chunks: total };
        }
        Ok(ChunkProgress { to_write: writes, complete })
    }

    /// Child: the chunk numbers still to come, in increasing order: those at
    /// or past the next one to write that are not kept aside.
    pub fn get_missing_chunks(&self) -> (r: Vec<u32>)
        requires
            self.wf(),
        ensures
            forall|i: int, j: int| 0 <= i < j < r@.len() ==> r@[i] < r@[j],
            forall|i: int| 0 <= i < r@.len() ==> is_missing(self@, #[trigger] r@[i]),
            forall|s: u32| is_missing(self@, s) ==> r@.contains(s),
    {
        let mut missing: Vec<u32> = Vec::new();
        if self.total_chunks == 0 {
            return missing;
        }
        let mut s: u32 = self.next_expected_sequence;
        while s < self.total_chunks
            invariant
                self.next_expected_sequence <= s || self.total_chunks <= self.next_expected_sequence,
                s >= self.next_expected_sequence,
                forall|i: int, j: int| 0 <= i < j < missing@.len() ==> missing@[i] < missing@[j],
                forall|i: int| 0 <= i < missing@.len() ==> missing@[i] < s,
                forall|i: int| 0 <= i < missing@.len() ==> is_missing(self@, #[trigger] missing@[i]),
                forall|t: u32| is_missing(self@, t) && t < s ==> missing@.contains(t),
            decreases self.total_chunks - s,
        {
            let ghost before = missing@;
            if !self.received_chunks_buffer.contains_key(&s) {
                missing.push(s);
                assert(missing@[missing@.len() - 1] == s);
            }
            assert forall|t: u32| is_missing(self@, t) && t < s + 1 implies missing@.contains(t) by {
                if t < s {
                    assert(before.contains(t));
                    let k = choose|k: int| 0 <= k < before.len() && before[k] == t;
                    assert(missing@[k] == t);
                } else {
                    assert(missing@[missing@.len() - 1] == s);
                }
            }
            s = s + 1;
        }
        missing
    }

    fn node_index(&self, mac: &String) -> (r: Option<usize>)
        requires
            self.wf(),
        ensures
            match r {
                Some(i) => i < self@.nodes.len() && self@.nodes[i as int].mac == mac@,
                None => forall|k: int| 0 <= k < self@.nodes.len() ==> (#[trigger] self@.nodes[k]).mac != mac@,
            },
    {
        let mut i: usize = 0;
        while i < self.node_progress.len()
            invariant
                i <= self.node_progress@.len(),
                forall|k: int| 0 <= k < i ==> (#[trigger] self@.nodes[k]).mac != mac@,
            decreases self.node_progress@.len() - i,
        {
            if self.node_progress[i].mac == *mac {
                return Some(i);
            }
            i = i + 1;
        }
        None
    }

    /// Root: a node acknowledged a chunk. The node is listed on its first
    /// message; a successful acknowledgement adds the chunk to its set.
    pub fn handle_chunk_ack(&mut self, mac: String, sequence: u32, success: bool)
        requires
            old(self).wf(),
        ensures
            final(self).wf(),
            final(self)@ == (OtaManagerView { nodes: final(self)@.nodes, ..old(self)@ }),
            match find_node(old(self)@.nodes, mac@) {
                Some(i) => final(self)@.nodes == old(self)@.nodes.update(
                    i,
                    acked(old(self)@.nodes[i], sequence, success),
                ),
                None => final(self)@.nodes == old(self)@.nodes.push(
                    acked(
                        NodeView { mac: mac@, received: Set::empty(), ready: false },
                        sequence,
                        success,
                    ),
                ),
            },
    {
        let ghost o = self@;
        let found = self.node_index(&mac);
        if let Some(i) = found {
            proof {
                let j = choose|j: int| 0 <= j < o.nodes.len() && (#[trigger] o.nodes[j]).mac == mac@;
                assert(j == i as int);
            }
            let mut node = self.node_progress.remove(i);
            if success {
                node.received_chunks.insert(sequence);
            }
            self.node_progress.insert(i, node);
            assert(self@.nodes =~= o.nodes.update(i as int, acked(o.nodes[i as int], sequence, success)));
        } else {
            assert(find_node(o.nodes, mac@) is None);
            let mut node = NodeProgress::new(mac);
            if success {
                node.received_chunks.insert(sequence);
            }
            self.node_progress.push(node);
            assert(self@.nodes =~= o.nodes.push(
                acked(NodeView { mac: mac@, received: Set::empty(), ready: false }, sequence, success),
            ));
        }
    }

    /// Root: a node reported its image complete; a listed node is marked ready.
    pub fn handle_node_complete(&mut self, mac: String)
        requires
            old(self).wf(),
        ensures
            final(self).wf(),
            final(self)@ == (OtaManagerView { nodes: final(self)@.nodes, ..old(self)@ }),
            match find_node(old(self)@.nodes, mac@) {
                Some(i) => final(self)@.nodes == old(self)@.nodes.update(
                    i,
                    NodeView { ready: true, ..old(self)@.nodes[i] },
                ),
                None => final(self)@.nodes == old(self)@.nodes,
            },
    {
        let ghost o = self@;
        let found = self.node_index(&mac);
        if let Some(i) = found {
            proof {
                let j = choose|j: int| 0 <= j < o.nodes.len() && (#[trigger] o.nodes[j]).mac == mac@;
                assert(j == i as int);
            }
            let mut node = self.node_progress.remove(i);
            node.ready = true;
            self.node_progress.insert(i, node);
            assert(self@.nodes =~= o.nodes.update(i as int, NodeView { ready: true, ..o.nodes[i as int] }));
        } else {
            assert(find_node(o.nodes, mac@) is None);
        }
    }

    /// Root: whether at least one node is listed and every listed node is ready.
    pub fn all_nodes_ready(&self) -> (r: bool)
        ensures
            r == (self@.nodes.len() > 0 && forall|i: int|
                0 <= i < self@.nodes.len() ==> (#[trigger] self@.nodes[i]).ready),
    {
        if self.node_progress.len() == 0 {
            return false;
        }
        let mut i: usize = 0;
        while i < self.node_progress.len()
            invariant
                i <= self.node_progress@.len(),
                forall|k: int| 0 <= k < i ==> (#[trigger] self@.nodes[k]).ready,
            decreases self.node_progress@.len() - i,
        {
            if !self.node_progress[i].ready {
                assert(!self@.nodes[i as int].ready);
                return false;
            }
            i = i + 1;
        }
        true
    }

    /// Root: the downloaded image is to be handed out as `version`; its chunk
    /// count is fixed and the old in-memory chunks are dropped.
    pub fn prepare_distribution(&mut self, version: String) -> (r: Result<(), OtaError>)
        requires
            old(self).wf(),
        ensures
            final(self).wf(),
            r is Ok,
            final(self)@ == (OtaManagerView {
                firmware_total_chunks: chunk_count(old(self)@.firmware_size as nat) as u32,
                firmware_version: version@,
                chunks: Seq::empty(),
                ..old(self)@
            }),
    {
        let total: u64 = (self.firmware_size as u64 + 511) / 512;
        self.firmware_total_chunks = total as u32;
        self.firmware_version = version;
        self.chunks.clear();
        Ok(())
    }

    /// Root: the image `firmware` is cut into the chunks held in memory (see
    /// `fragment_firmware`), replacing the earlier ones.
    pub fn fragment_firmware(&mut self, firmware: &[u8], version: String) -> (r: Result<(), OtaError>)
        requires
            old(self).wf(),
            chunk_count(firmware@.len()) <= u32::MAX,
        ensures
            final(self).wf(),
            r is Ok,
            final(self)@ == (OtaManagerView { chunks: final(self)@.chunks, ..old(self)@ }),
            final(self)@.chunks.len() == chunk_count(firmware@.len()),
            forall|i: int|
                0 <= i < final(self)@.chunks.len() ==> {
                    &&& (#[trigger] final(self)@.chunks[i]).sequence == i
                    &&& final(self)@.chunks[i].total_chunks == chunk_count(firmware@.len())
                    &&& final(self)@.chunks[i].version@ == version@
                    &&& final(self)@.chunks[i].data@ == chunk_bytes(firmware@, i)
                    &&& chunk_is_valid(final(self)@.chunks[i])
                },
            joined(final(self)@.chunks) == firmware@,
    {
        let image = vstd::slice::slice_to_vec(firmware);
        self.chunks = fragment_firmware(&image, &version);
        Ok(())
    }

    /// Root: number of chunks the image is handed out in.
    pub fn get_total_chunks(&self) -> (r: u32)
        ensures
            r == self@.firmware_total_chunks,
    {
        self.firmware_total_chunks
    }

    /// Root: the chunks held in memory.
    pub fn get_all_chunks(&self) -> (r: &[FirmwareChunk])
        ensures
            r@ == self@.chunks,
    {
        self.chunks.as_slice()
    }

    /// Root: where chunk `sequence` lies in the update partition, as
    /// `(offset, length)`.
    pub fn chunk_span(&self, sequence: u32) -> (r: Result<(u32, u32), OtaError>)
        requires
            self.wf(),
        ensures
            sequence >= self@.firmware_total_chunks ==> r == Err::<(u32, u32), OtaError>(
                OtaError::SequenceOutOfRange { sequence, total: self@.firmware_total_chunks },
            ),
            sequence < self@.firmware_total_chunks ==> r is Ok && r->Ok_0.0 == sequence * 512
                && r->Ok_0.0 < self@.firmware_size && r->Ok_0.1 == if self@.firmware_size - sequence
                * 512 >= 512 {
                512
            } else {
                self@.firmware_size - sequence * 512
            },
    {
        if sequence >= self.firmware_total_chunks {
            return Err(
                OtaError::SequenceOutOfRange { sequence, total: self.firmware_total_chunks },
            );
        }
        assert(sequence * 512 < self.firmware_size) by (nonlinear_arith)
            requires
                sequence < self.firmware_total_chunks,
                self.firmware_total_chunks <= (self.firmware_size + 511) / 512,
        ;
        let offset: u32 = sequence * 512;
        let remaining: u32 = self.firmware_size - offset;
        let len: u32 = if remaining >= 512 {
            512
        } else {
            remaining
        };
        Ok((offset, len))
    }

    /// Root: chunk `sequence` of the image, built from the partition bytes
    /// `data` that `chunk_span` located.
    pub fn get_chunk(&self, sequence: u32, data: Vec<u8>) -> (r: Result<FirmwareChunk, OtaError>)
        requires
            self.wf(),
        ensures
            sequence >= self@.firmware_total_chunks ==> r == Err::<FirmwareChunk, OtaError>(
                OtaError::SequenceOutOfRange { sequence, total: self@.firmware_total_chunks },
            ),
            sequence < self@.firmware_total_chunks ==> match r {
                Ok(c) => c.sequence == sequence && c.total_chunks == self@.firmware_total_chunks
                    && c.version@ == self@.firmware_version && c.data == data && chunk_is_valid(c)
                    && data@.len() == span_len(self@, sequence),
                Err(e) => e == (OtaError::ChunkLengthMismatch {
                    length: data@.len() as u32,
                    expected: span_len(self@, sequence) as u32,
                }) && data@.len() != span_len(self@, sequence),
            },
    {
        let (_offset, len) = match self.chunk_span(sequence) {
            Ok(span) => span,
            Err(e) => return Err(e),
        };
        if data.len() != len as usize {
            return Err(OtaError::ChunkLengthMismatch { length: data.len() as u32, expected: len });
        }
        Ok(FirmwareChunk::new(sequence, self.firmware_total_chunks, self.firmware_version.clone(), data))
    }

    /// Closes the open update once its image is complete.
    pub fn finalize_ota(&mut self) -> (r: Result<(), OtaError>)
        requires
            old(self).wf(),
        ensures
            final(self).wf(),
            old(self)@.update_active ==> r is Ok && final(self)@ == (OtaManagerView {
                update_active: false,
                ..old(self)@
            }),
            !old(self)@.update_active ==> r == Err::<(), OtaError>(OtaError::NoActiveUpdate)
                && final(self)@ == old(self)@,
    {
        if !self.update_active {
            return Err(OtaError::NoActiveUpdate);
        }
        self.update_active = false;
        Ok(())
    }

    /// Root: judges the server's answer about the latest release. A release
    /// is offered only when it is newer than the running firmware.
    pub fn check_for_updates(&self, status: u16, release: Option<GitHubRelease>) -> (r: Result<
        Option<GitHubRelease>,
        OtaError,
    >)
        ensures
            status != 200 ==> r == Err::<Option<GitHubRelease>, OtaError>(
                OtaError::BadStatus { status },
            ),
            status == 200 && release is None ==> r == Err::<Option<GitHubRelease>, OtaError>(
                OtaError::InvalidRelease,
            ),
            status == 200 && release is Some ==> match parse_version_spec(
                release->0.version@,
            ) {
                Err(e) => r == Err::<Option<GitHubRelease>, OtaError>(
                    OtaError::InvalidVersion { error: e },
                ),
                Ok(v) => if version_gt(v, current_version()) {
                    r == Ok::<Option<GitHubRelease>, OtaError>(release)
                } else {
                    r == Ok::<Option<GitHubRelease>, OtaError>(None)
                },
            },
    {
        if status != 200 {
            return Err(OtaError::BadStatus { status });
        }
        let release = match release {
            Some(rel) => rel,
            None => return Err(OtaError::InvalidRelease),
        };
        let latest = match release.version() {
            Ok(v) => v,
            Err(e) => return Err(OtaError::InvalidVersion { error: e }),
        };
        let newer = match is_update_available(&latest) {
            Ok(b) => b,
            Err(e) => return Err(OtaError::InvalidVersion { error: e }),
        };
        if newer {
            Ok(Some(release))
        } else {
            Ok(None)
        }
    }

    fn next_step(&self) -> (step: DownloadStep)
        requires
            self.wf(),
        ensures
            step == next_download_step(self@),
    {
        if self.download_offset < self.download_expected {
            let end: u32 = if self.download_expected - self.download_offset >= DOWNLOAD_RANGE {
                self.download_offset + DOWNLOAD_RANGE - 1
            } else {
                self.download_expected - 1
            };
            DownloadStep::Fetch { start: self.download_offset, end }
        } else {
            DownloadStep::Finished { total: self.download_offset }
        }
    }

    /// Root: a download of `expected_size` bytes into the freshly opened
    /// update partition starts; says which range to fetch first.
    pub fn begin_download(&mut self, expected_size: u32) -> (step: DownloadStep)
        requires
            old(self).wf(),
        ensures
            final(self).wf(),
            final(self)@ == (OtaManagerView {
                state: OtaState::Downloading { progress: 0, total: expected_size },
                download_expected: expected_size,
                download_offset: 0,
                download_retries: 0,
                update_active: true,
                ..old(self)@
            }),
            step == next_download_step(final(self)@),
    {
        self.state = OtaState::Downloading { progress: 0, total: expected_size };
        self.download_expected = expected_size;
        self.download_offset = 0;
        self.download_retries = 0;
        self.update_active = true;
        self.next_step()
    }

    /// Root: one range request of the download ended with `outcome`. A range
    /// counts only when the server answered 200 or 206 with exactly its bytes;
    /// a failed range is tried again, up to `MAX_DOWNLOAD_RETRIES` times.
    /// When every byte is in, the image size is recorded.
    pub fn download_firmware(&mut self, outcome: RangeOutcome) -> (step: DownloadStep)
        requires
            old(self).wf(),
            old(self)@.download_offset < old(self)@.download_expected,
            outcome is Received && !(outcome->status == 200 || outcome->status == 206)
                ==> outcome->bytes == 0,
        ensures
            final(self).wf(),
            ({
                let o = old(self)@;
                let end = range_end(o.download_offset, o.download_expected);
                let expected_len = (end - o.download_offset + 1) as u32;
                match range_error(outcome, expected_len) {
                    None => {
                        let n = OtaManagerView {
                            download_offset: (o.download_offset + expected_len) as u32,
                            download_retries: 0,
                            state: OtaState::Downloading {
                                progress: (o.download_offset + expected_len) as u32,
                                total: o.download_expected,
                            },
                            ..o
                        };
                        if n.download_offset < n.download_expected {
                            final(self)@ == n && step == next_download_step(n)
                        } else {
                            final(self)@ == (OtaManagerView {
                                firmware_size: n.download_offset,
                                firmware_total_chunks: 0,
                                ..n
                            }) && step == (DownloadStep::Finished { total: n.download_offset })
                        }
                    },
                    Some(e) => if o.download_retries + 1 >= MAX_DOWNLOAD_RETRIES {
                        final(self)@ == (OtaManagerView {
                            download_retries: MAX_DOWNLOAD_RETRIES,
                            ..o
                        }) && step == (DownloadStep::Failed { error: OtaError::RetriesExhausted })
                    } else {
                        final(self)@ == (OtaManagerView {
                            download_retries: (o.download_retries + 1) as u32,
                            ..o
                        }) && step == (DownloadStep::Retry {
                            start: o.download_offset,
                            end,
                            attempt: (o.download_retries + 1) as u32,
                        })
                    },
                }
            }),
    {
        let start = self.download_offset;
        let end: u32 = if self.download_expected - start >= DOWNLOAD_RANGE {
            start + DOWNLOAD_RANGE - 1
        } else {
            self.download_expected - 1
        };
        let expected_len: u32 = end - start + 1;
        let failed = match outcome {
            RangeOutcome::TransportError => true,
            RangeOutcome::Received { status, bytes } => (status != 200 && status != 206) || bytes
                != expected_len,
        };
        if failed {
            let attempt: u32 = self.download_retries + 1;
            if attempt >= MAX_DOWNLOAD_RETRIES {
                self.download_retries = MAX_DOWNLOAD_RETRIES;
                return DownloadStep::Failed { error: OtaError::RetriesExhausted };
            }
            self.download_retries = attempt;
            return DownloadStep::Retry { start, end, attempt };
        }
        self.download_offset = start + expected_len;
        self.download_retries = 0;
        self.state = OtaState::Downloading {
            progress: self.download_offset,
            total: self.download_expected,
        };
        if self.download_offset < self.download_expected {
            self.next_step()
        } else {
            self.firmware_size = self.download_offset;
            self.firmware_total_chunks = 0;
            DownloadStep::Finished { total: self.download_offset }
        }
    }

    /// Root: the downloaded image is closed and set up for distribution under
    /// `version`.
    pub fn trigger_ota_update(&mut self, version: String) -> (r: Result<(), OtaError>)
        requires
            old(self).wf(),
        ensures
            final(self).wf(),
            !old(self)@.update_active ==> r == Err::<(), OtaError>(OtaError::NoActiveUpdate)
                && final(self)@ == old(self)@,
            old(self)@.update_active ==> r is Ok && final(self)@ == (OtaManagerView {
                update_active: false,
                firmware_total_chunks: chunk_count(old(self)@.firmware_size as nat) as u32,
                firmware_version: version@,
                chunks: Seq::empty(),
                state: OtaState::Distributing {
                    total_chunks: chunk_count(old(self)@.firmware_size as nat) as u32,
                    nodes_complete: 0,
                    total_nodes: 0,
                },
                ..old(self)@
            }),
    {
        match self.finalize_ota() {
            Ok(()) => {},
            Err(e) => return Err(e),
        }
        let _ = self.prepare_distribution(version);
        self.state = OtaState::Distributing {
            total_chunks: self.firmware_total_chunks,
            nodes_complete: 0,
            total_nodes: 0,
        };
        Ok(())
    }
}

/// Reassembly law: every chunk that a child is handed for writing carries
/// the next sequence number in line and a checksum that matches its bytes.
/// Since the next number only grows, the image is written in order, each
/// chunk once.
pub proof fn lemma_writes_in_sequence(
    o: OtaManagerView,
    chunk: FirmwareChunk,
    n: OtaManagerView,
    writes: Seq<FirmwareChunk>,
    complete: bool,
)
    requires
        ota_view_wf(o),
        chunk_is_valid(chunk),
        chunk.sequence == o.next_expected,
        in_order_step(o, chunk, n, writes, complete),
    ensures
        n.next_expected == o.next_expected + writes.len(),
        forall|i: int|
            0 <= i < writes.len() ==> (#[trigger] writes[i]).sequence == o.next_expected + i
                && chunk_is_valid(writes[i]),
{
    assert forall|i: int| 0 <= i < writes.len() implies (#[trigger] writes[i]).sequence
        == o.next_expected + i && chunk_is_valid(writes[i]) by {
        if i > 0 {
            let k = (o.next_expected + i) as u32;
            assert(o.buffered.contains_key(k));
            assert(writes[i] == o.buffered[k]);
        }
    }
}


/// A chunk whose bytes and checksum matched fails the check once exactly one
/// of its bytes is changed (so once any one bit is flipped) with the same
/// checksum, and once its checksum is changed with the same bytes.
pub proof fn lemma_corrupted_chunk_fails(c: FirmwareChunk, d: FirmwareChunk, k: int)
    requires
        chunk_is_valid(c),
    ensures
        d.crc32 == c.crc32 && differ_only_at(c.data@, d.data@, k) ==> !chunk_is_valid(d),
        d.data@ == c.data@ && d.crc32 != c.crc32 ==> !chunk_is_valid(d),
{
    if d.crc32 == c.crc32 && differ_only_at(c.data@, d.data@, k) {
        lemma_one_changed_byte_is_caught(c.data@, d.data@, k);
    }
}

} // verus!
