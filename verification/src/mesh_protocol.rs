//! The ESP-NOW mesh protocol: packet header, payload kinds and hop
//! counting.

use vstd::prelude::*;
use crate::bounded::{payload_bytes, payload_len, payload_new, payload_push};
use crate::color::Rgb8;

verus! {

/// Largest payload of one packet, in bytes.
pub const MAX_PAYLOAD_SIZE: usize = 236;

/// Largest number of data bytes in one update chunk.
pub const OTA_CHUNK_DATA_SIZE: usize = 200;

/// Longest version text in an update message, in bytes.
pub const OTA_VERSION_BYTES: usize = 16;

/// What a packet carries.
#[derive(Debug, Clone, Copy, PartialEq, Eq, Structural)]
pub enum PacketType {
    TimeSync,
    Instructions,
    Routing,
    OtaChunk,
    OtaAck,
    OtaStart,
    OtaReboot,
}

/// A mesh packet.
pub struct MeshPacket {
    /// Relays so far; never wraps.
    pub hop_count: u8,
    pub packet_type: PacketType,
    /// Sender's time (microseconds).
    pub timestamp: u64,
    pub source_mac: [u8; 6],
    pub payload: heapless::Vec<u8, 236>,
}

impl MeshPacket {
    /// A packet that has not been relayed, with an empty payload.
    pub fn new(packet_type: PacketType, timestamp: u64, source_mac: [u8; 6]) -> (p: Self)
        ensures
            p.hop_count == 0,
            p.packet_type == packet_type,
            p.timestamp == timestamp,
            p.source_mac == source_mac,
            payload_bytes(p.payload).len() == 0,
    {
        MeshPacket { hop_count: 0, packet_type, timestamp, source_mac, payload: payload_new() }
    }

    /// Counts one more relay, staying at 255 once there.
    pub fn increment_hop(&mut self)
        ensures
            final(self).hop_count == if old(self).hop_count < 255 {
                old(self).hop_count + 1
            } else {
                255
            },
            final(self).packet_type == old(self).packet_type,
            final(self).timestamp == old(self).timestamp,
            final(self).source_mac == old(self).source_mac,
            final(self).payload == old(self).payload,
    {
        self.hop_count = self.hop_count.saturating_add(1);
    }
}

impl MeshPacket {
    /// Appends `bytes` to the payload, keeping those that fit within
    /// `MAX_PAYLOAD_SIZE`; the rest are dropped.
    pub fn append_payload(&mut self, bytes: &[u8])
        ensures
            payload_bytes(final(self).payload) == payload_bytes(old(self).payload) + bytes@.take(
                if payload_bytes(old(self).payload).len() + bytes@.len() <= MAX_PAYLOAD_SIZE {
                    bytes@.len() as int
                } else {
                    MAX_PAYLOAD_SIZE - payload_bytes(old(self).payload).len()
                },
            ),
            final(self).hop_count == old(self).hop_count,
            final(self).packet_type == old(self).packet_type,
            final(self).timestamp == old(self).timestamp,
            final(self).source_mac == old(self).source_mac,
    {
        let ghost start = payload_bytes(self.payload);
        let n0 = payload_len(&self.payload);
        let mut i: usize = 0;
        while i < bytes.len()
            invariant
                start.len() == n0,
                n0 <= MAX_PAYLOAD_SIZE,
                i <= bytes@.len(),
                payload_bytes(self.payload) == start + bytes@.take(
                    if start.len() + i <= MAX_PAYLOAD_SIZE {
                        i as int
                    } else {
                        MAX_PAYLOAD_SIZE - start.len()
                    },
                ),
                self.hop_count == old(self).hop_count,
                self.packet_type == old(self).packet_type,
                self.timestamp == old(self).timestamp,
                self.source_mac == old(self).source_mac,
            decreases bytes@.len() - i,
        {
            if payload_len(&self.payload) < MAX_PAYLOAD_SIZE {
                assert(bytes@.take(i + 1) =~= bytes@.take(i as int).push(bytes@[i as int]));
            }
            payload_push(&mut self.payload, bytes[i]);
            i = i + 1;
        }
    }
}

/// The root's clock, sent once a second.
#[derive(Debug, Clone, Copy, PartialEq, Eq, Structural)]
pub struct TimeSyncBeacon {
    /// Root time when sent (microseconds).
    pub root_timestamp: u64,
    pub sequence: u32,
}

/// Show `color` at mesh time `timestamp` (microseconds).
#[derive(Debug, Clone, Copy, PartialEq, Eq, Structural)]
pub struct Instruction {
    pub timestamp: u64,
    pub color: Rgb8,
}

/// Several instructions in time order.
pub struct InstructionBuffer {
    pub instructions: heapless::Vec<Instruction, 32>,
}

/// Routing messages.
#[derive(Debug, Clone, Copy, PartialEq, Eq, Structural)]
pub enum RoutingMessage {
    /// Periodic beacon: hops to the root (0 the root, 255 unknown).
    NeighborBeacon { distance_from_root: u8 },
    /// The sender's distance changed.
    RouteUpdate { distance_from_root: u8 },
}

/// One chunk of an update.
pub struct OtaChunkData {
    pub sequence: u32,
    pub total_chunks: u32,
    pub version: heapless::String<16>,
    pub data: heapless::Vec<u8, 200>,
    /// CRC-32/ISCSI of `data`.
    pub crc32: u32,
}

/// A node's acknowledgement of a chunk.
#[derive(Debug, Clone, Copy)]
pub struct OtaAckData {
    pub sequence: u32,
    pub success: bool,
    pub node_mac: [u8; 6],
}

/// The announcement of an update.
pub struct OtaStartData {
    pub version: heapless::String<16>,
    pub total_chunks: u32,
    pub firmware_size: u32,
}

} // verus!
