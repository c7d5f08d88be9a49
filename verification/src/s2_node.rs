//! The decisions of an ESP-NOW mesh node: which subsystem a received packet
//! goes to, how the node finds an existing mesh at boot, the playback and
//! status steps, and how the root cuts a firmware image into mesh chunks.

use vstd::prelude::*;
use crate::bounded::{
    chunk_data_bytes, chunk_data_from_slice, chunk_data_new, instruction_slots,
    instruction_slots_as_slice, instruction_slots_len, payload_bytes, version_chars, version_from_str,
    version_new,
};
use crate::checksum::{checksum_iscsi, crc32_iscsi};
use crate::color::Rgb8;
use crate::mesh_protocol::{
    Instruction, MeshPacket, OtaChunkData, OtaStartData, PacketType, RoutingMessage, TimeSyncBeacon,
};
use crate::s2_espnow::ReceivedPacket;
use crate::s2_instructions::{
    get_buffer_left, get_next_instruction, merge_all, time_diff, InstructionStatus, Instructions,
    combine_instructions,
};
use crate::s2_led::{set_color, LedController};
use crate::s2_ota::{
    after_apply, after_chunk, after_chunks, after_start, apply_update, chunk_crc_ok, delivers,
    handle_chunk, is_ready_to_apply, lemma_full_delivery_ready, start_update, OtaManager, OtaState,
    OtaView, MAX_CHUNKS,
};
use crate::s2_routing::{
    after_hearing, announced_distance, handle_routing_message, our_distance, RoutingTable,
    UNKNOWN_DISTANCE,
};
use vstd::string::StringSliceAdditionalSpecFns;
use crate::s2_time_sync::{after_beacon, beacon_accepted, beacon_in_range, handle_sync_beacon, is_synced, TimeSync};

verus! {

/// How long a booting node listens for an existing mesh, in milliseconds.
pub const MESH_DISCOVERY_TIMEOUT_MS: u64 = 5000;

/// Bytes of firmware in one mesh chunk.
pub const MESH_CHUNK_SIZE: usize = 200;

/// Longest version text an update message carries, in bytes.
pub const MESH_VERSION_BYTES: usize = 16;

/// Everything a node keeps; each part is absent until it is set up.
pub struct MeshNodeState {
    pub time_sync: Option<TimeSync>,
    pub routing: Option<RoutingTable>,
    pub instructions: Option<Instructions>,
    pub ota: Option<OtaManager>,
    pub led: Option<LedController>,
}

impl MeshNodeState {
    /// The parts' invariants.
    pub open spec fn wf(&self) -> bool {
        &&& self.routing is Some ==> self.routing->0.wf()
        &&& self.instructions is Some ==> self.instructions->0.wf()
        &&& self.ota is Some ==> self.ota->0.wf()
    }
}

/// A packet's payload as read for its type; `Nothing` when the type carries
/// none or it could not be read.
pub enum PacketPayload {
    TimeSync(TimeSyncBeacon),
    Routing(RoutingMessage),
    Instructions(heapless::Vec<Instruction, 100>),
    OtaStart(OtaStartData),
    OtaChunk(OtaChunkData),
    Nothing,
}

/// What handling a packet did.
#[derive(Debug, Clone, Copy, PartialEq, Eq, Structural)]
pub enum PacketOutcome {
    /// A time beacon went to the clock.
    TimeSync,
    /// A routing message went to the routing table.
    Routing,
    /// This many instructions were merged into the buffer.
    Instructions(usize),
    /// An update announcement, taken on or refused.
    OtaStarted(bool),
    /// An update chunk.
    OtaChunk(ChunkReply),
    /// An acknowledgement, which a node only relays.
    OtaAck,
    /// A reboot command with a complete update, applied or refused.
    OtaApplied(bool),
    /// A reboot command without a complete update.
    OtaNotReady,
    /// The payload could not be read.
    Unreadable,
}

/// What became of an update chunk.
#[derive(Debug, Clone, Copy, PartialEq, Eq, Structural)]
pub enum ChunkReply {
    New,
    Duplicate,
    Refused,
}

/// The reply for a chunk answered `res`.
pub open spec fn chunk_reply(res: Result<bool, ()>) -> ChunkReply {
    match res {
        Ok(true) => ChunkReply::New,
        Ok(false) => ChunkReply::Duplicate,
        Err(_) => ChunkReply::Refused,
    }
}

/// The clock after a beacon, if it is set up.
pub open spec fn sync_after(before: Option<TimeSync>, after: Option<TimeSync>, b: TimeSyncBeacon, rx_us: u64) -> bool {
    match before {
        None => after is None,
        Some(ts) => after is Some && after->0@ == after_beacon(ts@, b, rx_us),
    }
}

/// The routing table after a message, if it is set up.
pub open spec fn routing_after(
    before: Option<RoutingTable>,
    after: Option<RoutingTable>,
    sender: [u8; 6],
    m: RoutingMessage,
    rssi: i8,
    now: u64,
) -> bool {
    match before {
        None => after is None,
        Some(t) => after is Some && after->0.wf() && after->0@ == after_hearing(
            t@,
            sender,
            announced_distance(m),
            rssi,
            now,
        ).0,
    }
}

/// The instruction buffer after a merge, if it is set up.
pub open spec fn instructions_after(before: Option<Instructions>, after: Option<Instructions>, xs: Seq<Instruction>) -> bool {
    match before {
        None => after is None,
        Some(b) => after is Some && after->0.wf() && after->0@ == merge_all(b@, xs),
    }
}

/// Whether it is safe to take `b` at `rx_us` on this node's clock.
pub open spec fn beacon_safe(sync: Option<TimeSync>, b: TimeSyncBeacon, rx_us: u64) -> bool {
    sync is Some && beacon_accepted(sync->0@, b) ==> beacon_in_range(sync->0@, b, rx_us)
}

/// Hands a received packet, whose payload was read as `payload`, to the
/// subsystem its type names, at local time `now_us`. Parts that are not set
/// up ignore it; a payload of the wrong kind is unreadable.
pub fn process_packet(
    node: &mut MeshNodeState,
    received: &ReceivedPacket,
    payload: PacketPayload,
    now_us: u64,
) -> (r: PacketOutcome)
    requires
        old(node).wf(),
        received.packet.packet_type == PacketType::TimeSync ==> (payload matches PacketPayload::TimeSync(b) ==> beacon_safe(old(node).time_sync, b, now_us)),
    ensures
        final(node).wf(),
        final(node).led == old(node).led,
        ({
            let o = *old(node);
            let f = *final(node);
            match (received.packet.packet_type, payload) {
                (PacketType::TimeSync, PacketPayload::TimeSync(b)) => {
                    &&& r == PacketOutcome::TimeSync
                    &&& sync_after(o.time_sync, f.time_sync, b, now_us)
                    &&& f.routing == o.routing && f.instructions == o.instructions && f.ota == o.ota
                },
                (PacketType::Routing, PacketPayload::Routing(m)) => {
                    &&& r == PacketOutcome::Routing
                    &&& routing_after(o.routing, f.routing, received.sender_mac, m, received.rssi, now_us)
                    &&& f.time_sync == o.time_sync && f.instructions == o.instructions && f.ota == o.ota
                },
                (PacketType::Instructions, PacketPayload::Instructions(xs)) => {
                    &&& r == PacketOutcome::Instructions(instruction_slots(xs).len() as usize)
                    &&& instructions_after(o.instructions, f.instructions, instruction_slots(xs))
                    &&& f.time_sync == o.time_sync && f.routing == o.routing && f.ota == o.ota
                },
                (PacketType::OtaStart, PacketPayload::OtaStart(sd)) => {
                    &&& f.time_sync == o.time_sync && f.routing == o.routing && f.instructions == o.instructions
                    &&& match o.ota {
                        None => r == PacketOutcome::OtaStarted(false) && f.ota is None,
                        Some(m) => f.ota is Some && f.ota->0.wf() && ({
                            let (res, v) = after_start(m@, sd);
                            r == PacketOutcome::OtaStarted(res is Ok) && f.ota->0@ == v
                        }),
                    }
                },
                (PacketType::OtaChunk, PacketPayload::OtaChunk(c)) => {
                    &&& f.time_sync == o.time_sync && f.routing == o.routing && f.instructions == o.instructions
                    &&& match o.ota {
                        None => r == PacketOutcome::OtaChunk(ChunkReply::Refused) && f.ota is None,
                        Some(m) => f.ota is Some && f.ota->0.wf() && ({
                            let (res, v) = after_chunk(m@, c);
                            r == PacketOutcome::OtaChunk(chunk_reply(res)) && f.ota->0@ == v
                        }),
                    }
                },
                (PacketType::OtaAck, _) => {
                    r == PacketOutcome::OtaAck && f.time_sync == o.time_sync && f.routing == o.routing
                        && f.instructions == o.instructions && f.ota == o.ota
                },
                (PacketType::OtaReboot, _) => {
                    &&& f.time_sync == o.time_sync && f.routing == o.routing && f.instructions == o.instructions
                    &&& if o.ota is Some && o.ota->0@.state == OtaState::ReadyToApply {
                        let (res, v) = after_apply(o.ota->0@);
                        r == PacketOutcome::OtaApplied(res is Ok) && f.ota is Some && f.ota->0.wf() && f.ota->0@ == v
                    } else {
                        r == PacketOutcome::OtaNotReady && f.ota == o.ota
                    }
                },
                _ => {
                    r == PacketOutcome::Unreadable && f.time_sync == o.time_sync && f.routing == o.routing
                        && f.instructions == o.instructions && f.ota == o.ota
                },
            }
        }),
{
    match received.packet.packet_type {
        PacketType::TimeSync => match payload {
            PacketPayload::TimeSync(beacon) => {
                handle_sync_beacon(&mut node.time_sync, &beacon, now_us);
                PacketOutcome::TimeSync
            },
            _ => PacketOutcome::Unreadable,
        },
        PacketType::Routing => match payload {
            PacketPayload::Routing(message) => {
                handle_routing_message(
                    &mut node.routing,
                    received.sender_mac,
                    &message,
                    received.rssi,
                    now_us,
                );
                PacketOutcome::Routing
            },
            _ => PacketOutcome::Unreadable,
        },
        PacketType::Instructions => match payload {
            PacketPayload::Instructions(list) => {
                combine_instructions(&mut node.instructions, instruction_slots_as_slice(&list));
                PacketOutcome::Instructions(instruction_slots_len(&list))
            },
            _ => PacketOutcome::Unreadable,
        },
        PacketType::OtaStart => match payload {
            PacketPayload::OtaStart(start_data) => {
                let res = start_update(&mut node.ota, &start_data);
                PacketOutcome::OtaStarted(res.is_ok())
            },
            _ => PacketOutcome::Unreadable,
        },
        PacketType::OtaChunk => match payload {
            PacketPayload::OtaChunk(chunk) => {
                let reply = match handle_chunk(&mut node.ota, &chunk, received.sender_mac) {
                    Ok(true) => ChunkReply::New,
                    Ok(false) => ChunkReply::Duplicate,
                    Err(()) => ChunkReply::Refused,
                };
                PacketOutcome::OtaChunk(reply)
            },
            _ => PacketOutcome::Unreadable,
        },
        PacketType::OtaAck => PacketOutcome::OtaAck,
        PacketType::OtaReboot => {
            if is_ready_to_apply(&node.ota) {
                let res = apply_update(&mut node.ota);
                PacketOutcome::OtaApplied(res.is_ok())
            } else {
                PacketOutcome::OtaNotReady
            }
        },
    }
}

/// What a booting node sees while it listens for a mesh.
pub enum DiscoveryEvent {
    /// A packet of this type arrived; for a routing packet, its message if
    /// it could be read.
    Packet { packet_type: PacketType, routing: Option<RoutingMessage> },
    /// Nothing arrived for a while; this long has passed since listening began.
    Quiet { elapsed_ms: u64 },
}

/// What the listening node does next.
#[derive(Debug, Clone, Copy, PartialEq, Eq, Structural)]
pub enum DiscoveryStep {
    /// A mesh is there: a neighbour announced this distance to its root.
    Found(u8),
    /// Five seconds passed without a sign of a mesh.
    NotFound,
    /// Keep listening.
    Listen,
}

/// One step of mesh discovery: a routing message announcing a route to a
/// root means a mesh exists; five quiet seconds mean none does.
pub fn discovery_step(event: &DiscoveryEvent) -> (r: DiscoveryStep)
    ensures
        r == match *event {
            DiscoveryEvent::Packet { packet_type, routing } => if packet_type == PacketType::Routing
                && routing is Some && announced_distance(routing->0) < UNKNOWN_DISTANCE {
                DiscoveryStep::Found(announced_distance(routing->0))
            } else {
                DiscoveryStep::Listen
            },
            DiscoveryEvent::Quiet { elapsed_ms } => if elapsed_ms >= MESH_DISCOVERY_TIMEOUT_MS {
                DiscoveryStep::NotFound
            } else {
                DiscoveryStep::Listen
            },
        },
{
    match event {
        DiscoveryEvent::Packet { packet_type, routing } => {
            if *packet_type == PacketType::Routing {
                match routing {
                    Some(RoutingMessage::NeighborBeacon { distance_from_root }) => {
                        if *distance_from_root < 255 {
                            return DiscoveryStep::Found(*distance_from_root);
                        }
                    },
                    Some(RoutingMessage::RouteUpdate { distance_from_root }) => {
                        if *distance_from_root < 255 {
                            return DiscoveryStep::Found(*distance_from_root);
                        }
                    },
                    None => {},
                }
            }
            DiscoveryStep::Listen
        },
        DiscoveryEvent::Quiet { elapsed_ms } => {
            if *elapsed_ms >= MESH_DISCOVERY_TIMEOUT_MS {
                DiscoveryStep::NotFound
            } else {
                DiscoveryStep::Listen
            }
        },
    }
}

/// Root election at boot: a node that found a mesh joins it; one that found
/// none becomes the root exactly when it reached the router.
pub fn elect_root(mesh_found: bool, router_connected: bool) -> (is_root: bool)
    ensures
        is_root == (!mesh_found && router_connected),
{
    if mesh_found {
        false
    } else {
        router_connected
    }
}

/// One step of playback at mesh time `now_us`: a colour that is due goes to
/// the LEDs (and the next step follows at once); otherwise the time to sleep
/// is returned.
pub fn executor_step(node: &mut MeshNodeState, now_us: u64) -> (r: Option<u64>)
    requires
        old(node).wf(),
        old(node).instructions is Some && old(node).instructions->0@.len() > 0 ==> i64::MIN
            <= time_diff(old(node).instructions->0@[0].timestamp, now_us) <= i64::MAX,
    ensures
        final(node).wf(),
        final(node).time_sync == old(node).time_sync,
        final(node).routing == old(node).routing,
        final(node).ota == old(node).ota,
        ({
            let status = if old(node).instructions is None {
                InstructionStatus::Sleep(100_000)
            } else {
                next_status(old(node).instructions->0@, now_us)
            };
            match status {
                InstructionStatus::Sleep(d) => r == Some(d) && final(node).led == old(node).led,
                InstructionStatus::SetColor(c) => r is None && (old(node).led is None
                    ==> final(node).led is None) && (old(node).led is Some ==> final(node).led is Some
                    && final(node).led->0.color() == c),
            }
        }),
        old(node).instructions is None ==> final(node).instructions is None,
        old(node).instructions is Some ==> final(node).instructions is Some
            && final(node).instructions->0@ == next_buffer(old(node).instructions->0@, now_us),
{
    match get_next_instruction(&mut node.instructions, now_us) {
        InstructionStatus::Sleep(duration_us) => Some(duration_us),
        InstructionStatus::SetColor(color) => {
            set_color(&mut node.led, color);
            None
        },
    }
}

/// The playback decision for buffer `s` at `now_us`.
pub open spec fn next_status(s: Seq<Instruction>, now_us: u64) -> InstructionStatus {
    if s.len() == 0 {
        InstructionStatus::Sleep(100_000)
    } else if time_diff(s[0].timestamp, now_us) < -50_000 {
        InstructionStatus::Sleep(100_000)
    } else if time_diff(s[0].timestamp, now_us) > 50_000 {
        InstructionStatus::Sleep((time_diff(s[0].timestamp, now_us) - 10_000) as u64)
    } else {
        InstructionStatus::SetColor(s[0].color)
    }
}

/// The buffer `s` after one playback step at `now_us`.
pub open spec fn next_buffer(s: Seq<Instruction>, now_us: u64) -> Seq<Instruction> {
    if s.len() == 0 || time_diff(s[0].timestamp, now_us) > 50_000 {
        s
    } else {
        s.drop_first()
    }
}

/// What the status task reports.
#[derive(Debug, Clone, Copy, PartialEq, Eq, Structural)]
pub struct StatusReport {
    pub synced: bool,
    pub distance: u8,
    /// Time left before the next instruction, in whole milliseconds.
    pub buffer_ms: u64,
}

/// The node's status at local time `local_us` and mesh time `mesh_us`.
pub fn status_report(node: &MeshNodeState, local_us: u64, mesh_us: u64) -> (r: StatusReport)
    requires
        node.time_sync is Some && node.time_sync->0@.last_sync is Some
            ==> node.time_sync->0@.last_sync->0 <= local_us,
    ensures
        r.synced == (node.time_sync is Some && (node.time_sync->0@.is_root || (
        node.time_sync->0@.last_sync is Some && local_us - node.time_sync->0@.last_sync->0
            < 10_000_000))),
        r.distance == if node.routing is Some {
            node.routing->0@.our_distance
        } else {
            UNKNOWN_DISTANCE
        },
        r.buffer_ms == (if node.instructions is None || node.instructions->0@.len() == 0
            || node.instructions->0@[0].timestamp <= mesh_us {
            0
        } else {
            node.instructions->0@[0].timestamp - mesh_us
        }) / 1000,
{
    let synced = is_synced(&node.time_sync, local_us);
    let distance = our_distance(&node.routing);
    let buffer_left = get_buffer_left(&node.instructions, mesh_us);
    StatusReport { synced, distance, buffer_ms: buffer_left / 1000 }
}

/// The number of mesh chunks an image of `len` bytes makes.
pub open spec fn mesh_chunk_count(len: int) -> int {
    (len + 199) / 200
}

/// The bytes of mesh chunk `i` of `image`.
pub open spec fn mesh_chunk_data(image: Seq<u8>, i: int) -> Seq<u8> {
    image.subrange(
        i * 200,
        if (i + 1) * 200 <= image.len() {
            (i + 1) * 200
        } else {
            image.len() as int
        },
    )
}

/// The version text an update message carries: `version` if it fits in 16
/// bytes, empty otherwise.
pub open spec fn mesh_version(version: &str) -> Seq<char> {
    if version.spec_bytes().len() <= MESH_VERSION_BYTES {
        version@
    } else {
        Seq::empty()
    }
}

fn version_field(version: &str) -> (r: heapless::String<16>)
    ensures
        version_chars(r) == mesh_version(version),
{
    match version_from_str(version) {
        Ok(v) => v,
        Err(_) => version_new(),
    }
}

/// Whether `start` and `chunks` are how the root hands `image` to the mesh:
/// the announcement, then one chunk per 200 bytes, each with its number, the
/// chunk count, the version and the CRC-32/ISCSI of its bytes.
pub open spec fn is_update_plan(
    image: Seq<u8>,
    version: &str,
    start: OtaStartData,
    chunks: Seq<OtaChunkData>,
) -> bool {
    &&& version_chars(start.version) == mesh_version(version)
    &&& start.total_chunks == mesh_chunk_count(image.len() as int) as u32
    &&& start.firmware_size == image.len() as u32
    &&& chunks.len() == mesh_chunk_count(image.len() as int)
    &&& forall|i: int|
        0 <= i < chunks.len() ==> {
            let c = #[trigger] chunks[i];
            &&& c.sequence == i as u32
            &&& c.total_chunks == mesh_chunk_count(image.len() as int) as u32
            &&& version_chars(c.version) == mesh_version(version)
            &&& chunk_data_bytes(c.data) == mesh_chunk_data(image, i)
            &&& c.crc32 == crc32_iscsi(chunk_data_bytes(c.data))
        }
}

/// The root's plan for a nonempty image of at most 512 chunks is an
/// announcement followed by exactly its chunks, so a node that was idle and
/// receives all of them in order ends ready to apply the update.
pub proof fn lemma_plan_delivers(
    image: Seq<u8>,
    version: &str,
    start: OtaStartData,
    chunks: Seq<OtaChunkData>,
    node: OtaView,
)
    requires
        is_update_plan(image, version, start, chunks),
        1 <= image.len(),
        mesh_chunk_count(image.len() as int) <= MAX_CHUNKS,
        node.state == OtaState::Idle || node.state == OtaState::Failed,
    ensures
        delivers(start, chunks),
        after_start(node, start).0 is Ok,
        after_chunks(after_start(node, start).1, chunks).state == OtaState::ReadyToApply,
{
    assert forall|i: int| 0 <= i < chunks.len() implies {
        &&& (#[trigger] chunks[i]).sequence == i
        &&& version_chars(chunks[i].version) == version_chars(start.version)
        &&& chunk_crc_ok(chunks[i])
    } by {
        let c = chunks[i];
        assert(c.sequence == i as u32);
    }
    lemma_full_delivery_ready(node, start, chunks);
}

/// How the root hands an image to the mesh: the announcement, then one
/// chunk per 200 bytes, each with its number, the chunk count, the version
/// and the CRC-32/ISCSI of its bytes.
pub fn mesh_update_plan(image: &[u8], version: &str) -> (r: (OtaStartData, Vec<OtaChunkData>))
    requires
        image@.len() + 200 <= usize::MAX,
    ensures
        is_update_plan(image@, version, r.0, r.1@),
{
    let len = image.len();
    let total: usize = (len + MESH_CHUNK_SIZE - 1) / MESH_CHUNK_SIZE;
    let start = OtaStartData {
        version: version_field(version),
        total_chunks: total as u32,
        firmware_size: len as u32,
    };
    let mut chunks: Vec<OtaChunkData> = Vec::new();
    let mut i: usize = 0;
    while i < total
        invariant
            len == image@.len(),
            total == mesh_chunk_count(len as int),
            i <= total,
            chunks@.len() == i,
            forall|k: int|
                0 <= k < i ==> {
                    let c = #[trigger] chunks@[k];
                    &&& c.sequence == k as u32
                    &&& c.total_chunks == total as u32
                    &&& version_chars(c.version) == mesh_version(version)
                    &&& chunk_data_bytes(c.data) == mesh_chunk_data(image@, k)
                    &&& c.crc32 == crc32_iscsi(chunk_data_bytes(c.data))
                },
        decreases total - i,
    {
        assert(i * 200 < len) by (nonlinear_arith)
            requires
                i < total,
                total == (len + 199) / 200,
        ;
        let from: usize = i * MESH_CHUNK_SIZE;
        let to: usize = if len - from >= MESH_CHUNK_SIZE {
            from + MESH_CHUNK_SIZE
        } else {
            len
        };
        let bytes = vstd::slice::slice_subrange(image, from, to);
        let crc = checksum_iscsi(bytes);
        let data = match chunk_data_from_slice(bytes) {
            Ok(d) => d,
            Err(_) => chunk_data_new(),
        };
        chunks.push(
            OtaChunkData {
                sequence: i as u32,
                total_chunks: total as u32,
                version: version_field(version),
                data,
                crc32: crc,
            },
        );
        i = i + 1;
    }
    (start, chunks)
}

/// A broadcast packet of the root's update traffic (no time stamp), with an
/// encoded message as payload.
pub fn update_packet(packet_type: PacketType, payload: heapless::Vec<u8, 236>) -> (p: MeshPacket)
    ensures
        p.hop_count == 0,
        p.packet_type == packet_type,
        p.timestamp == 0,
        p.source_mac@ == seq![0xFFu8, 0xFF, 0xFF, 0xFF, 0xFF, 0xFF],
        payload_bytes(p.payload) == payload_bytes(payload),
{
    let mut packet = MeshPacket::new(packet_type, 0, [0xFF; 6]);
    packet.payload = payload;
    assert(packet.source_mac@ =~= seq![0xFFu8, 0xFF, 0xFF, 0xFF, 0xFF, 0xFF]);
    packet
}

} // verus!
