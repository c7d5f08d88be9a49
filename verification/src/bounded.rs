//! The fixed-capacity vectors and the index map of the `heapless` crate
//! that the ESP-NOW firmware keeps its tables in, with what each operation
//! does to their contents.

use vstd::prelude::*;
use vstd::string::StringSliceAdditionalSpecFns;
use crate::mesh_protocol::Instruction;
use crate::s2_ota::ChunkStatus;
use crate::s2_routing::Neighbor;

verus! {

#[verifier::external_type_specification]
#[verifier::external_body]
#[verifier::reject_recursive_types(T)]
pub struct ExHeaplessVec<T, const N: usize>(heapless::Vec<T, N>);

#[verifier::external_type_specification]
#[verifier::external_body]
pub struct ExHeaplessString<const N: usize>(heapless::String<N>);

/// The bytes held by a packet payload.
pub uninterp spec fn payload_bytes(v: heapless::Vec<u8, 236>) -> Seq<u8>;

/// The bytes held by an update chunk.
pub uninterp spec fn chunk_data_bytes(v: heapless::Vec<u8, 200>) -> Seq<u8>;

/// The text held by a version string of at most 16 bytes.
pub uninterp spec fn version_chars(v: heapless::String<16>) -> Seq<char>;

/// The statuses held by a chunk-status table.
pub uninterp spec fn chunk_statuses(v: heapless::Vec<ChunkStatus, 512>) -> Seq<ChunkStatus>;

/// The numbers held by a list of chunk numbers.
pub uninterp spec fn sequence_list(v: heapless::Vec<u32, 32>) -> Seq<u32>;

/// The instructions held by an instruction buffer.
pub uninterp spec fn instruction_slots(v: heapless::Vec<Instruction, 100>) -> Seq<Instruction>;

/// `heapless::Vec::new`: an empty table.
#[verifier::external_body]
pub(crate) fn status_table_new() -> (v: heapless::Vec<ChunkStatus, 512>)
    ensures
        chunk_statuses(v) == Seq::<ChunkStatus>::empty(),
{
    heapless::Vec::new()
}

/// `heapless::Vec::push`: appends unless 512 entries are held; reports
/// whether it did.
#[verifier::external_body]
pub(crate) fn status_table_push(v: &mut heapless::Vec<ChunkStatus, 512>, s: ChunkStatus) -> (r:
    bool)
    ensures
        chunk_statuses(*final(v)).len() <= 512,
        chunk_statuses(*old(v)).len() < 512 ==> r && chunk_statuses(*final(v)) == chunk_statuses(
            *old(v),
        ).push(s),
        chunk_statuses(*old(v)).len() >= 512 ==> !r && chunk_statuses(*final(v))
            == chunk_statuses(*old(v)),
{
    v.push(s).is_ok()
}

/// `heapless::Vec::clear`: empties the table.
#[verifier::external_body]
pub(crate) fn status_table_clear(v: &mut heapless::Vec<ChunkStatus, 512>)
    ensures
        chunk_statuses(*final(v)) == Seq::<ChunkStatus>::empty(),
{
    v.clear()
}

/// The table's length (through its slice).
#[verifier::external_body]
pub(crate) fn status_table_len(v: &heapless::Vec<ChunkStatus, 512>) -> (r: usize)
    ensures
        r == chunk_statuses(*v).len(),
        r <= 512,
{
    v.len()
}

/// Entry `i` of the table (through its slice; `i` in range).
#[verifier::external_body]
pub(crate) fn status_table_get(v: &heapless::Vec<ChunkStatus, 512>, i: usize) -> (r: ChunkStatus)
    requires
        i < chunk_statuses(*v).len(),
    ensures
        r == chunk_statuses(*v)[i as int],
{
    v[i]
}

/// Overwrites entry `i` of the table (through its slice; `i` in range).
#[verifier::external_body]
pub(crate) fn status_table_set(v: &mut heapless::Vec<ChunkStatus, 512>, i: usize, s: ChunkStatus)
    requires
        i < chunk_statuses(*old(v)).len(),
    ensures
        chunk_statuses(*final(v)) == chunk_statuses(*old(v)).update(i as int, s),
{
    v[i] = s;
}

/// `heapless::Vec::new`: an empty list.
#[verifier::external_body]
pub(crate) fn sequence_list_new() -> (v: heapless::Vec<u32, 32>)
    ensures
        sequence_list(v) == Seq::<u32>::empty(),
{
    heapless::Vec::new()
}

/// `heapless::Vec::push`: appends unless 32 numbers are held; reports
/// whether it did.
#[verifier::external_body]
pub(crate) fn sequence_list_push(v: &mut heapless::Vec<u32, 32>, s: u32) -> (r: bool)
    ensures
        sequence_list(*final(v)).len() <= 32,
        sequence_list(*old(v)).len() < 32 ==> r && sequence_list(*final(v)) == sequence_list(
            *old(v),
        ).push(s),
        sequence_list(*old(v)).len() >= 32 ==> !r && sequence_list(*final(v)) == sequence_list(
            *old(v),
        ),
{
    v.push(s).is_ok()
}

/// `heapless::Vec::new`: an empty buffer.
#[verifier::external_body]
pub(crate) fn instruction_slots_new() -> (v: heapless::Vec<Instruction, 100>)
    ensures
        instruction_slots(v) == Seq::<Instruction>::empty(),
{
    heapless::Vec::new()
}

/// `heapless::Vec::push`: appends unless 100 entries are held; reports
/// whether it did.
#[verifier::external_body]
pub(crate) fn instruction_slots_push(v: &mut heapless::Vec<Instruction, 100>, x: Instruction) -> (r:
    bool)
    ensures
        instruction_slots(*final(v)).len() <= 100,
        instruction_slots(*old(v)).len() < 100 ==> r && instruction_slots(*final(v))
            == instruction_slots(*old(v)).push(x),
        instruction_slots(*old(v)).len() >= 100 ==> !r && instruction_slots(*final(v))
            == instruction_slots(*old(v)),
{
    v.push(x).is_ok()
}

/// The buffer's length (through its slice).
#[verifier::external_body]
pub(crate) fn instruction_slots_len(v: &heapless::Vec<Instruction, 100>) -> (r: usize)
    ensures
        r == instruction_slots(*v).len(),
        r <= 100,
{
    v.len()
}

/// Entry `i` of the buffer (through its slice; `i` in range).
#[verifier::external_body]
pub(crate) fn instruction_slots_get(v: &heapless::Vec<Instruction, 100>, i: usize) -> (r:
    Instruction)
    requires
        i < instruction_slots(*v).len(),
    ensures
        r == instruction_slots(*v)[i as int],
{
    v[i]
}

/// `heapless::Vec::insert`: puts `x` at position `i` (at most the length)
/// unless 100 entries are held; reports whether it did.
#[verifier::external_body]
pub(crate) fn instruction_slots_insert(
    v: &mut heapless::Vec<Instruction, 100>,
    i: usize,
    x: Instruction,
) -> (r: bool)
    requires
        i <= instruction_slots(*old(v)).len(),
    ensures
        instruction_slots(*final(v)).len() <= 100,
        instruction_slots(*old(v)).len() < 100 ==> r && instruction_slots(*final(v))
            == instruction_slots(*old(v)).insert(i as int, x),
        instruction_slots(*old(v)).len() >= 100 ==> !r && instruction_slots(*final(v))
            == instruction_slots(*old(v)),
{
    v.insert(i, x).is_ok()
}

/// `heapless::Vec::remove`: takes out entry `i` (in range), shifting the
/// rest down.
#[verifier::external_body]
pub(crate) fn instruction_slots_remove(v: &mut heapless::Vec<Instruction, 100>, i: usize) -> (r:
    Instruction)
    requires
        i < instruction_slots(*old(v)).len(),
    ensures
        r == instruction_slots(*old(v))[i as int],
        instruction_slots(*final(v)) == instruction_slots(*old(v)).remove(i as int),
{
    v.remove(i)
}

/// `heapless::Vec::clear`: empties the buffer.
#[verifier::external_body]
pub(crate) fn instruction_slots_clear(v: &mut heapless::Vec<Instruction, 100>)
    ensures
        instruction_slots(*final(v)) == Seq::<Instruction>::empty(),
{
    v.clear()
}

/// `heapless::Vec::new`: an empty payload.
#[verifier::external_body]
pub(crate) fn payload_new() -> (v: heapless::Vec<u8, 236>)
    ensures
        payload_bytes(v) == Seq::<u8>::empty(),
{
    heapless::Vec::new()
}

/// `heapless::Vec::push`: appends a byte unless 236 are held; reports
/// whether it did.
#[verifier::external_body]
pub(crate) fn payload_push(v: &mut heapless::Vec<u8, 236>, b: u8) -> (r: bool)
    ensures
        payload_bytes(*final(v)).len() <= 236,
        payload_bytes(*old(v)).len() < 236 ==> r && payload_bytes(*final(v)) == payload_bytes(
            *old(v),
        ).push(b),
        payload_bytes(*old(v)).len() >= 236 ==> !r && payload_bytes(*final(v)) == payload_bytes(
            *old(v),
        ),
{
    v.push(b).is_ok()
}

/// The payload's length (through its slice).
#[verifier::external_body]
pub(crate) fn payload_len(v: &heapless::Vec<u8, 236>) -> (r: usize)
    ensures
        r == payload_bytes(*v).len(),
        r <= 236,
{
    v.len()
}

/// `Clone::clone` of a payload: the same bytes.
#[verifier::external_body]
pub(crate) fn payload_clone(v: &heapless::Vec<u8, 236>) -> (r: heapless::Vec<u8, 236>)
    ensures
        payload_bytes(r) == payload_bytes(*v),
{
    v.clone()
}

/// `heapless::Vec::new`: an empty chunk.
#[verifier::external_body]
pub(crate) fn chunk_data_new() -> (v: heapless::Vec<u8, 200>)
    ensures
        chunk_data_bytes(v) == Seq::<u8>::empty(),
{
    heapless::Vec::new()
}

/// `heapless::Vec::from_slice`: a chunk holding `bytes`, refused when they
/// are more than 200.
#[verifier::external_body]
pub(crate) fn chunk_data_from_slice(bytes: &[u8]) -> (r: Result<heapless::Vec<u8, 200>, ()>)
    ensures
        bytes@.len() <= 200 ==> r is Ok && chunk_data_bytes(r->Ok_0) == bytes@,
        bytes@.len() > 200 ==> r is Err,
{
    heapless::Vec::from_slice(bytes)
}

/// `heapless::Vec::as_slice`: the chunk's bytes.
#[verifier::external_body]
pub(crate) fn chunk_data_as_slice(v: &heapless::Vec<u8, 200>) -> (r: &[u8])
    ensures
        r@ == chunk_data_bytes(*v),
{
    v.as_slice()
}

/// `heapless::String::new`: an empty version.
#[verifier::external_body]
pub(crate) fn version_new() -> (v: heapless::String<16>)
    ensures
        version_chars(v) == Seq::<char>::empty(),
{
    heapless::String::new()
}

/// `heapless::String::try_from`: `s` as a version, refused when it is more
/// than 16 bytes long.
#[verifier::external_body]
pub(crate) fn version_from_str(s: &str) -> (r: Result<heapless::String<16>, ()>)
    ensures
        s.spec_bytes().len() <= 16 ==> r is Ok && version_chars(r->Ok_0) == s@,
        s.spec_bytes().len() > 16 ==> r is Err,
{
    heapless::String::try_from(s)
}

/// `PartialEq::eq` of two versions: whether they hold the same text.
#[verifier::external_body]
pub(crate) fn version_eq(a: &heapless::String<16>, b: &heapless::String<16>) -> (r: bool)
    ensures
        r == (version_chars(*a) == version_chars(*b)),
{
    a == b
}

/// `Clone::clone` of a version: the same text.
#[verifier::external_body]
pub(crate) fn version_clone(v: &heapless::String<16>) -> (r: heapless::String<16>)
    ensures
        version_chars(r) == version_chars(*v),
{
    v.clone()
}

/// `heapless::String::clear`: the version becomes empty.
#[verifier::external_body]
pub(crate) fn version_clear(v: &mut heapless::String<16>)
    ensures
        version_chars(*final(v)) == Seq::<char>::empty(),
{
    v.clear()
}

/// `heapless::Vec::as_slice`: the buffer's instructions.
#[verifier::external_body]
pub(crate) fn instruction_slots_as_slice(v: &heapless::Vec<Instruction, 100>) -> (r: &[Instruction])
    ensures
        r@ == instruction_slots(*v),
{
    v.as_slice()
}


/// A neighbour table: a `heapless::FnvIndexMap` from MAC address to
/// neighbour with room for 16 entries. Its hasher type belongs to the
/// `hash32` crate, which `heapless` does not re-export, so the map cannot be
/// declared to Verus; it is held here, and only the functions below reach it.
#[verifier::external_body]
pub struct NeighborMap {
    map: heapless::FnvIndexMap<[u8; 6], Neighbor, 16>,
}

/// The keys of a neighbour table, in the map's entry order.
pub uninterp spec fn neighbor_keys(m: NeighborMap) -> Seq<[u8; 6]>;

/// The neighbours of a neighbour table, in the map's entry order (entry `i`
/// is stored under key `i`).
pub uninterp spec fn neighbor_values(m: NeighborMap) -> Seq<Neighbor>;

/// Position of the first key whose bytes are `key`, or -1.
pub open spec fn key_position(keys: Seq<[u8; 6]>, key: Seq<u8>) -> int
    decreases keys.len(),
{
    if keys.len() == 0 {
        -1
    } else if key_position(keys.drop_last(), key) >= 0 {
        key_position(keys.drop_last(), key)
    } else if keys.last()@ == key {
        keys.len() - 1
    } else {
        -1
    }
}

/// `s` without entry `p`, whose place the last entry takes.
pub open spec fn swap_remove_at<T>(s: Seq<T>, p: int) -> Seq<T> {
    s.update(p, s.last()).drop_last()
}

/// `heapless::IndexMap::new` (as `FnvIndexMap`): an empty table.
#[verifier::external_body]
pub(crate) fn neighbor_map_new() -> (m: NeighborMap)
    ensures
        neighbor_keys(m) == Seq::<[u8; 6]>::empty(),
        neighbor_values(m) == Seq::<Neighbor>::empty(),
{
    NeighborMap { map: heapless::FnvIndexMap::new() }
}

/// `heapless::IndexMap::len`: the number of entries.
#[verifier::external_body]
pub(crate) fn neighbor_map_len(m: &NeighborMap) -> (r: usize)
    ensures
        r == neighbor_values(*m).len(),
        r == neighbor_keys(*m).len(),
        r <= 16,
{
    m.map.len()
}

/// `heapless::IndexMap::values`, copied out in entry order.
#[verifier::external_body]
pub(crate) fn neighbor_map_values(m: &NeighborMap) -> (r: Vec<Neighbor>)
    ensures
        r@ == neighbor_values(*m),
{
    m.map.values().copied().collect()
}

/// `heapless::IndexMap::insert`: a key already held keeps its place and gets
/// the new value; a new key is appended unless 16 entries are held. Reports
/// whether the value was stored.
#[verifier::external_body]
pub(crate) fn neighbor_map_insert(m: &mut NeighborMap, key: [u8; 6], value: Neighbor) -> (r: bool)
    ensures
        ({
            let keys = neighbor_keys(*old(m));
            let values = neighbor_values(*old(m));
            let p = key_position(keys, key@);
            if p >= 0 {
                &&& r
                &&& neighbor_keys(*final(m)) == keys
                &&& neighbor_values(*final(m)) == values.update(p, value)
            } else if keys.len() < 16 {
                &&& r
                &&& neighbor_keys(*final(m)) == keys.push(key)
                &&& neighbor_values(*final(m)) == values.push(value)
            } else {
                &&& !r
                &&& neighbor_keys(*final(m)) == keys
                &&& neighbor_values(*final(m)) == values
            }
        }),
{
    m.map.insert(key, value).is_ok()
}

/// `heapless::IndexMap::remove`, which is `swap_remove`: the entry under
/// `key`, if any, leaves and the last entry takes its place.
#[verifier::external_body]
pub(crate) fn neighbor_map_remove(m: &mut NeighborMap, key: &[u8; 6])
    ensures
        ({
            let keys = neighbor_keys(*old(m));
            let values = neighbor_values(*old(m));
            let p = key_position(keys, key@);
            if p >= 0 {
                &&& neighbor_keys(*final(m)) == swap_remove_at(keys, p)
                &&& neighbor_values(*final(m)) == swap_remove_at(values, p)
            } else {
                &&& neighbor_keys(*final(m)) == keys
                &&& neighbor_values(*final(m)) == values
            }
        }),
{
    m.map.remove(key);
}

} // verus!
