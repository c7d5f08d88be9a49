//! Framing of mesh packets on ESP-NOW: an encoded packet travels with the
//! CRC-32/ISCSI of its bytes appended, least significant byte first, and is
//! taken only if that checksum matches.

use vstd::prelude::*;
use crate::checksum::{checksum_iscsi, crc32_iscsi};
use crate::mesh_protocol::MeshPacket;

verus! {

/// Largest frame the radio is handed, checksum included.
pub const MAX_FRAME_SIZE: usize = 256;

/// Why a packet could not be sent or received.
#[derive(Debug, Clone, Copy, PartialEq, Eq, Structural)]
pub enum EspNowError {
    SerializationFailed,
    DeserializationFailed,
    SendFailed,
    ReceiveFailed,
    PeerAddFailed,
}

/// A packet as received, with its sender.
pub struct ReceivedPacket {
    pub packet: MeshPacket,
    /// Signal strength; the radio reports none, so 0.
    pub rssi: i8,
    pub sender_mac: [u8; 6],
}

/// `x` as four bytes, least significant first.
pub open spec fn le_bytes(x: u32) -> Seq<u8> {
    seq![
        (x % 256) as u8,
        ((x / 256) % 256) as u8,
        ((x / 65536) % 256) as u8,
        (x / 16777216) as u8,
    ]
}

/// The number whose bytes, least significant first, are `b`.
pub open spec fn from_le_bytes(b: Seq<u8>) -> int {
    b[0] + 256 * b[1] + 65536 * b[2] + 16777216 * b[3]
}

/// The frame that carries `body`.
pub open spec fn framed(body: Seq<u8>) -> Seq<u8> {
    body + le_bytes(crc32_iscsi(body))
}

/// Whether `data` holds a body of `body_len` bytes followed by its checksum
/// (anything after that is ignored).
pub open spec fn frame_ok(data: Seq<u8>, body_len: int) -> bool {
    &&& 0 <= body_len
    &&& body_len + 4 <= data.len()
    &&& from_le_bytes(data.subrange(body_len, body_len + 4)) == crc32_iscsi(data.take(body_len))
}

/// Reading back the four bytes of `x` gives `x`.
pub proof fn lemma_le_bytes_round_trip(x: u32)
    ensures
        from_le_bytes(le_bytes(x)) == x,
{
    assert(x == x % 256 + 256 * ((x / 256) % 256) + 65536 * ((x / 65536) % 256) + 16777216 * (x
        / 16777216)) by (bit_vector);
}

/// A frame made for a body passes the check after that body.
pub proof fn lemma_frame_round_trip(body: Seq<u8>)
    ensures
        frame_ok(framed(body), body.len() as int),
{
    let f = framed(body);
    let n = body.len() as int;
    lemma_le_bytes_round_trip(crc32_iscsi(body));
    assert(f.subrange(n, n + 4) =~= le_bytes(crc32_iscsi(body)));
    assert(f.take(n) =~= body);
}

/// The frame for an encoded packet; refused when it would exceed 256 bytes.
pub fn frame_packet(body: &[u8]) -> (r: Result<Vec<u8>, EspNowError>)
    ensures
        body@.len() + 4 <= MAX_FRAME_SIZE ==> r is Ok && r->Ok_0@ == framed(body@),
        body@.len() + 4 > MAX_FRAME_SIZE ==> r == Err::<Vec<u8>, EspNowError>(
            EspNowError::SerializationFailed,
        ),
{
    if body.len() > MAX_FRAME_SIZE - 4 {
        return Err(EspNowError::SerializationFailed);
    }
    let crc = checksum_iscsi(body);
    let mut out: Vec<u8> = Vec::new();
    let mut i: usize = 0;
    while i < body.len()
        invariant
            i <= body@.len(),
            out@ == body@.take(i as int),
        decreases body@.len() - i,
    {
        out.push(body[i]);
        i = i + 1;
        assert(out@ =~= body@.take(i as int));
    }
    out.push((crc % 256) as u8);
    out.push(((crc / 256) % 256) as u8);
    out.push(((crc / 65536) % 256) as u8);
    out.push((crc / 16777216) as u8);
    assert(out@ =~= framed(body@));
    Ok(out)
}

/// Checks the checksum after the first `body_len` bytes of a received frame.
pub fn check_frame(data: &[u8], body_len: usize) -> (r: bool)
    ensures
        r == frame_ok(data@, body_len as int),
{
    if body_len > data.len() || data.len() - body_len < 4 {
        return false;
    }
    let crc = checksum_iscsi(vstd::slice::slice_subrange(data, 0, body_len));
    let b0 = data[body_len] as u32;
    let b1 = data[body_len + 1] as u32;
    let b2 = data[body_len + 2] as u32;
    let b3 = data[body_len + 3] as u32;
    let stored: u32 = b0 + 256 * b1 + 65536 * b2 + 16777216 * b3;
    let ghost tail = data@.subrange(body_len as int, body_len + 4);
    assert(tail[0] == b0 && tail[1] == b1 && tail[2] == b2 && tail[3] == b3);
    assert(data@.subrange(0, body_len as int) =~= data@.take(body_len as int));
    stored == crc
}

/// A received frame, taken apart: `decoded` is the packet read from its
/// start and the number of bytes that took, if it could be read. The packet
/// is accepted only with a matching checksum.
pub fn receive_packet(data: &[u8], sender_mac: [u8; 6], decoded: Option<(MeshPacket, usize)>) -> (r:
    Result<ReceivedPacket, EspNowError>)
    ensures
        r is Ok <==> (decoded is Some && frame_ok(data@, (decoded->0).1 as int)),
        r is Err ==> r == Err::<ReceivedPacket, EspNowError>(EspNowError::DeserializationFailed),
        r is Ok ==> r->Ok_0.packet == (decoded->0).0 && r->Ok_0.rssi == 0 && r->Ok_0.sender_mac == sender_mac,
{
    match decoded {
        Some((packet, body_len)) => {
            if check_frame(data, body_len) {
                Ok(ReceivedPacket { packet, rssi: 0, sender_mac })
            } else {
                Err(EspNowError::DeserializationFailed)
            }
        },
        None => Err(EspNowError::DeserializationFailed),
    }
}

} // verus!
