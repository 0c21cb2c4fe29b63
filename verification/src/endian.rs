//! Big-endian integers, as the header's extended length field holds them.

use byteorder::ByteOrder;
use byteorder::NetworkEndian;
use vstd::prelude::*;

verus! {

/// The number that `bytes` spell, most significant byte first.
pub open spec fn be_value(bytes: Seq<u8>) -> nat
    decreases bytes.len(),
{
    if bytes.len() == 0 {
        0
    } else {
        be_value(bytes.drop_last()) * 256 + bytes.last() as nat
    }
}

/// The `width` low-order bytes of `n`, most significant first.
pub open spec fn be_bytes(n: nat, width: nat) -> Seq<u8>
    decreases width,
{
    if width == 0 {
        Seq::empty()
    } else {
        be_bytes(n / 256, (width - 1) as nat).push((n % 256) as u8)
    }
}

/// 256 to the power `width`.
pub open spec fn radix_pow(width: nat) -> nat
    decreases width,
{
    if width == 0 {
        1
    } else {
        256 * radix_pow((width - 1) as nat)
    }
}

/// The powers of 256 that the header's fields reach.
pub proof fn lemma_radix_pow_values()
    ensures
        radix_pow(0) == 1,
        radix_pow(1) == 0x100,
        radix_pow(2) == 0x1_0000,
        radix_pow(8) == 0x1_0000_0000_0000_0000,
{
    reveal_with_fuel(radix_pow, 9);
}

/// A wider field holds at least as much.
pub proof fn lemma_radix_pow_monotone(a: nat, b: nat)
    requires
        a <= b,
    ensures
        1 <= radix_pow(a) <= radix_pow(b),
    decreases b,
{
    if a < b {
        lemma_radix_pow_monotone(a, (b - 1) as nat);
    } else if a > 0 {
        lemma_radix_pow_monotone((a - 1) as nat, (b - 1) as nat);
    }
}

/// `be_bytes` yields `width` bytes.
pub proof fn lemma_be_bytes_len(n: nat, width: nat)
    ensures
        be_bytes(n, width).len() == width,
    decreases width,
{
    if width > 0 {
        lemma_be_bytes_len(n / 256, (width - 1) as nat);
    }
}

/// A number that fits in `width` bytes is read back from them unchanged.
pub proof fn lemma_be_round_trip(n: nat, width: nat)
    requires
        n < radix_pow(width),
    ensures
        be_value(be_bytes(n, width)) == n,
    decreases width,
{
    if width > 0 {
        let rest = be_bytes(n / 256, (width - 1) as nat);
        assert(n / 256 < radix_pow((width - 1) as nat)) by (nonlinear_arith)
            requires
                n < 256 * radix_pow((width - 1) as nat),
        ;
        lemma_be_round_trip(n / 256, (width - 1) as nat);
        let all = be_bytes(n, width);
        assert(all.drop_last() =~= rest);
        assert(all.last() == (n % 256) as u8);
    }
}

/// Calls `byteorder::ByteOrder::read_uint` for `NetworkEndian`: the first
/// `nbytes` bytes of `buf`, read as one big-endian number. The outside
/// function refuses a count outside 1..=8 or beyond the buffer, so callers
/// must not pass one.
#[verifier::external_body]
pub(crate) fn read_be_uint(buf: &[u8], nbytes: usize) -> (r: u64)
    requires
        1 <= nbytes <= 8,
        nbytes <= buf@.len(),
    ensures
        r == be_value(buf@.subrange(0, nbytes as int)),
{
    NetworkEndian::read_uint(buf, nbytes)
}

/// Calls `byteorder::ByteOrder::write_u16` for `NetworkEndian` on a fresh
/// two-byte buffer: the high byte of `n`, then the low byte.
#[verifier::external_body]
pub(crate) fn be_bytes_u16(n: u16) -> (out: [u8; 2])
    ensures
        out@ == be_bytes(n as nat, 2),
{
    let mut out = [0u8; 2];
    NetworkEndian::write_u16(&mut out, n);
    out
}

/// Calls `byteorder::ByteOrder::write_u64` for `NetworkEndian` on a fresh
/// eight-byte buffer: the bytes of `n` from the most significant down.
#[verifier::external_body]
pub(crate) fn be_bytes_u64(n: u64) -> (out: [u8; 8])
    ensures
        out@ == be_bytes(n as nat, 8),
{
    let mut out = [0u8; 8];
    NetworkEndian::write_u64(&mut out, n);
    out
}

} // verus!
