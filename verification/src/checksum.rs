//! CRC-32 checksums of the `crc` crate, as the firmware's chunk and packet
//! framing uses them, and why a checksum catches any one changed byte.

use vstd::prelude::*;

verus! {

/// One step of a reflected CRC register over one bit: shift right, and
/// fold the reflected polynomial `poly` in when a one bit falls out.
pub open spec fn crc_shift(reg: u32, poly: u32) -> u32 {
    if reg & 1 == 1 {
        (reg >> 1) ^ poly
    } else {
        reg >> 1
    }
}

/// The register after taking in one byte, least significant bit first.
pub open spec fn crc_byte(reg: u32, byte: u8, poly: u32) -> u32 {
    crc_shift(
        crc_shift(
            crc_shift(
                crc_shift(
                    crc_shift(
                        crc_shift(crc_shift(crc_shift(reg ^ (byte as u32), poly), poly), poly),
                        poly,
                    ),
                    poly,
                ),
                poly,
            ),
            poly,
        ),
        poly,
    )
}

/// The register after taking in `data`, starting from all ones.
pub open spec fn crc_register(data: Seq<u8>, poly: u32) -> u32
    decreases data.len(),
{
    if data.len() == 0 {
        0xffff_ffff
    } else {
        crc_byte(crc_register(data.drop_last(), poly), data.last(), poly)
    }
}

/// A reflected 32-bit CRC with all-ones start and final inversion.
pub open spec fn crc32_reflected(data: Seq<u8>, poly: u32) -> u32 {
    crc_register(data, poly) ^ 0xffff_ffff
}

/// The CRC-32/ISO-HDLC checksum of `data` (the common "CRC-32" of zip and
/// Ethernet): polynomial 0x04C11DB7, reflected 0xEDB88320.
pub open spec fn crc32_iso_hdlc(data: Seq<u8>) -> u32 {
    crc32_reflected(data, 0xedb8_8320)
}

/// The CRC-32/ISCSI (Castagnoli) checksum of `data`: polynomial 0x1EDC6F41,
/// reflected 0x82F63B78.
pub open spec fn crc32_iscsi(data: Seq<u8>) -> u32 {
    crc32_reflected(data, 0x82f6_3b78)
}

/// Calls `crc::Crc::<u32>::new(&crc::CRC_32_ISO_HDLC).checksum`. The
/// catalogue gives that algorithm as width 32, polynomial 0x04C11DB7, start
/// and final XOR 0xFFFFFFFF, input and output reflected: `crc32_iso_hdlc`.
#[verifier::external_body]
pub(crate) fn checksum_iso_hdlc(data: &[u8]) -> (r: u32)
    ensures
        r == crc32_iso_hdlc(data@),
{
    crc::Crc::<u32>::new(&crc::CRC_32_ISO_HDLC).checksum(data)
}

/// Calls `crc::Crc::<u32>::new(&crc::CRC_32_ISCSI).checksum`. The catalogue
/// gives that algorithm as width 32, polynomial 0x1EDC6F41, start and final
/// XOR 0xFFFFFFFF, input and output reflected: `crc32_iscsi`.
#[verifier::external_body]
pub(crate) fn checksum_iscsi(data: &[u8]) -> (r: u32)
    ensures
        r == crc32_iscsi(data@),
{
    crc::Crc::<u32>::new(&crc::CRC_32_ISCSI).checksum(data)
}

/// With the polynomial's top bit set, one shift step loses nothing: the
/// register before it can be read back from the one after it.
proof fn lemma_shift_injective(x: u32, y: u32, poly: u32)
    by (bit_vector)
    requires
        poly >> 31 == 1,
        crc_shift(x, poly) == crc_shift(y, poly),
    ensures
        x == y,
{
}

proof fn lemma_xor_byte(x: u32, y: u32, b: u32)
    by (bit_vector)
    requires
        x ^ b == y ^ b,
    ensures
        x == y,
{
}

proof fn lemma_xor_differs(r: u32, b1: u32, b2: u32)
    by (bit_vector)
    requires
        b1 != b2,
    ensures
        r ^ b1 != r ^ b2,
{
}

/// Eight shift steps lose nothing either.
proof fn lemma_shifts_injective(x: u32, y: u32, poly: u32)
    requires
        poly >> 31 == 1,
        crc_shift(crc_shift(crc_shift(crc_shift(crc_shift(crc_shift(crc_shift(crc_shift(x, poly), poly), poly), poly), poly), poly), poly), poly)
            == crc_shift(crc_shift(crc_shift(crc_shift(crc_shift(crc_shift(crc_shift(crc_shift(y, poly), poly), poly), poly), poly), poly), poly), poly),
    ensures
        x == y,
{
    let x1 = crc_shift(x, poly);
    let y1 = crc_shift(y, poly);
    let x2 = crc_shift(x1, poly);
    let y2 = crc_shift(y1, poly);
    let x3 = crc_shift(x2, poly);
    let y3 = crc_shift(y2, poly);
    let x4 = crc_shift(x3, poly);
    let y4 = crc_shift(y3, poly);
    let x5 = crc_shift(x4, poly);
    let y5 = crc_shift(y4, poly);
    let x6 = crc_shift(x5, poly);
    let y6 = crc_shift(y5, poly);
    let x7 = crc_shift(x6, poly);
    let y7 = crc_shift(y6, poly);
    lemma_shift_injective(x7, y7, poly);
    lemma_shift_injective(x6, y6, poly);
    lemma_shift_injective(x5, y5, poly);
    lemma_shift_injective(x4, y4, poly);
    lemma_shift_injective(x3, y3, poly);
    lemma_shift_injective(x2, y2, poly);
    lemma_shift_injective(x1, y1, poly);
    lemma_shift_injective(x, y, poly);
}

/// Taking in the same byte keeps two different registers different.
proof fn lemma_byte_keeps_difference(r1: u32, r2: u32, b: u8, poly: u32)
    requires
        poly >> 31 == 1,
        r1 != r2,
    ensures
        crc_byte(r1, b, poly) != crc_byte(r2, b, poly),
{
    if crc_byte(r1, b, poly) == crc_byte(r2, b, poly) {
        lemma_shifts_injective(r1 ^ (b as u32), r2 ^ (b as u32), poly);
        lemma_xor_byte(r1, r2, b as u32);
    }
}

/// Taking two different bytes into the same register gives different
/// registers.
proof fn lemma_bytes_make_difference(r: u32, b1: u8, b2: u8, poly: u32)
    requires
        poly >> 31 == 1,
        b1 != b2,
    ensures
        crc_byte(r, b1, poly) != crc_byte(r, b2, poly),
{
    lemma_xor_differs(r, b1 as u32, b2 as u32);
    if crc_byte(r, b1, poly) == crc_byte(r, b2, poly) {
        lemma_shifts_injective(r ^ (b1 as u32), r ^ (b2 as u32), poly);
    }
}

/// Whether `a` and `b` have the same length and differ in byte `k` only.
pub open spec fn differ_only_at(a: Seq<u8>, b: Seq<u8>, k: int) -> bool {
    &&& a.len() == b.len()
    &&& 0 <= k < a.len()
    &&& a[k] != b[k]
    &&& forall|i: int| 0 <= i < a.len() && i != k ==> a[i] == b[i]
}

proof fn lemma_register_prefix(a: Seq<u8>, b: Seq<u8>, k: int, m: int, poly: u32)
    requires
        poly >> 31 == 1,
        differ_only_at(a, b, k),
        0 <= m <= a.len(),
    ensures
        m <= k ==> crc_register(a.take(m), poly) == crc_register(b.take(m), poly),
        m > k ==> crc_register(a.take(m), poly) != crc_register(b.take(m), poly),
    decreases m,
{
    if m == 0 {
        assert(a.take(0) =~= b.take(0));
    } else {
        lemma_register_prefix(a, b, k, m - 1, poly);
        assert(a.take(m).drop_last() =~= a.take(m - 1));
        assert(b.take(m).drop_last() =~= b.take(m - 1));
        assert(a.take(m).last() == a[m - 1]);
        assert(b.take(m).last() == b[m - 1]);
        let ra = crc_register(a.take(m - 1), poly);
        let rb = crc_register(b.take(m - 1), poly);
        if m - 1 < k {
            assert(a[m - 1] == b[m - 1]);
        } else if m - 1 == k {
            lemma_bytes_make_difference(ra, a[k], b[k], poly);
        } else {
            assert(a[m - 1] == b[m - 1]);
            lemma_byte_keeps_difference(ra, rb, a[m - 1], poly);
        }
    }
}

/// A reflected CRC-32 whose polynomial has its top bit set (both used here
/// have) catches any one changed byte: two byte strings of the same length
/// that differ in exactly one byte have different checksums. So in
/// particular any one flipped bit is caught.
pub proof fn lemma_one_changed_byte_is_caught(a: Seq<u8>, b: Seq<u8>, k: int)
    requires
        differ_only_at(a, b, k),
    ensures
        crc32_iso_hdlc(a) != crc32_iso_hdlc(b),
        crc32_iscsi(a) != crc32_iscsi(b),
{
    assert((0xedb8_8320u32 >> 31) == 1) by (bit_vector);
    assert((0x82f6_3b78u32 >> 31) == 1) by (bit_vector);
    lemma_register_prefix(a, b, k, a.len() as int, 0xedb8_8320);
    lemma_register_prefix(a, b, k, a.len() as int, 0x82f6_3b78);
    assert(a.take(a.len() as int) =~= a);
    assert(b.take(b.len() as int) =~= b);
    let ra = crc_register(a, 0xedb8_8320);
    let rb = crc_register(b, 0xedb8_8320);
    let sa = crc_register(a, 0x82f6_3b78);
    let sb = crc_register(b, 0x82f6_3b78);
    lemma_xor_differs(0xffff_ffff, ra, rb);
    lemma_xor_differs(0xffff_ffff, sa, sb);
    assert(ra ^ 0xffff_ffff == 0xffff_ffff ^ ra) by (bit_vector);
    assert(rb ^ 0xffff_ffff == 0xffff_ffff ^ rb) by (bit_vector);
    assert(sa ^ 0xffff_ffff == 0xffff_ffff ^ sa) by (bit_vector);
    assert(sb ^ 0xffff_ffff == 0xffff_ffff ^ sb) by (bit_vector);
}

} // verus!
