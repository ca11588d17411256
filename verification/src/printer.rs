//! The observable behaviour of the print builtin: it removes sentinel bytes
//! that the loader's padding can inject into a staged value, renders the value
//! as decimal ASCII digits with no leading zeros, and terminates the line with
//! CRLF. The formatting here is pure; writing the bytes to standard output is
//! the caller's business.

use vstd::prelude::*;

verus! {

/// The single-byte pattern the print builtin strips from a staged value.
pub const SENTINEL_BYTE: u64 = 0xcc;

/// Carriage return.
pub const CR: u8 = 13;

/// Line feed.
pub const LF: u8 = 10;

/// The decimal ASCII digits of `n`, most significant first; a lone `0` for
/// zero and never a leading zero otherwise.
pub open spec fn dec_u64(n: u64) -> Seq<u8>
    decreases n,
{
    if n < 10 {
        seq![(48 + n) as u8]
    } else {
        dec_u64(n / 10).push((48 + n % 10) as u8)
    }
}

/// Byte `i` (little-endian) of a 64-bit value.
pub open spec fn byte_of(v: u64, i: u64) -> u64 {
    (v >> ((8 * i) as u64)) & 0xff
}

/// The low `i` bytes of `v` with every sentinel byte replaced by zero; the
/// remaining bytes are zero.
pub open spec fn strip_upto(v: u64, i: nat) -> u64
    decreases i,
{
    if i == 0 {
        0u64
    } else {
        let rest = strip_upto(v, (i - 1) as nat);
        let b = byte_of(v, (i - 1) as u64);
        if b == SENTINEL_BYTE {
            rest
        } else {
            rest | ((b << ((8 * (i - 1)) as u64)) as u64)
        }
    }
}

/// `v` with every sentinel byte replaced by zero.
pub open spec fn strip_spec(v: u64) -> u64 {
    strip_upto(v, 8)
}

/// The two's-complement bit pattern of a signed 64-bit value, as the print
/// builtin receives it.
pub open spec fn bits64(v: i64) -> u64 {
    if v >= 0 {
        v as u64
    } else {
        (v + 0x1_0000_0000_0000_0000) as u64
    }
}

/// Everything the print builtin writes for a staged 64-bit value: decimal
/// digits of the sentinel-stripped value, then CRLF.
pub open spec fn print_bytes(v: u64) -> Seq<u8> {
    dec_u64(strip_spec(v)) + seq![CR, LF]
}

/// The bit pattern a signed value presents to the print builtin.
pub fn to_bits(v: i64) -> (r: u64)
    ensures
        r == bits64(v),
{
    if v >= 0 {
        v as u64
    } else {
        ((v as i128) + 0x1_0000_0000_0000_0000i128) as u64
    }
}

/// Replaces every sentinel byte of `v` by zero, leaving the other bytes as
/// they are.
pub fn strip_sentinel(v: u64) -> (r: u64)
    ensures
        r == strip_spec(v),
{
    let mut r: u64 = 0;
    let mut i: u64 = 0;
    while i < 8
        invariant
            i <= 8,
            r == strip_upto(v, i as nat),
        decreases 8 - i,
    {
        let sh: u64 = 8 * i;
        let b: u64 = (v >> sh) & 0xff;
        if b != SENTINEL_BYTE {
            r = r | (b << sh);
        }
        i = i + 1;
    }
    r
}

/// Appends the decimal ASCII digits of `n` to `out`, most significant first.
pub fn push_dec_u64(out: &mut Vec<u8>, n: u64)
    ensures
        final(out)@ == old(out)@ + dec_u64(n),
    decreases n,
{
    if n >= 10 {
        push_dec_u64(out, n / 10);
    }
    let d: u8 = 48 + (n % 10) as u8;
    out.push(d);
    proof {
        assert(out@ =~= old(out)@ + dec_u64(n));
    }
}

/// Exactly what the print builtin writes for the staged value `v`: sentinel
/// bytes removed, decimal digits, CRLF.
pub fn format_output(v: u64) -> (r: Vec<u8>)
    ensures
        r@ == print_bytes(v),
{
    let stripped = strip_sentinel(v);
    let mut out: Vec<u8> = Vec::new();
    push_dec_u64(&mut out, stripped);
    out.push(CR);
    out.push(LF);
    proof {
        assert(out@ =~= print_bytes(v));
    }
    out
}

/// The decimal rendering is at least one digit, every byte is an ASCII digit,
/// and the leading byte is `0` only for the value zero.
pub proof fn lemma_dec_u64_digits(n: u64)
    ensures
        dec_u64(n).len() >= 1,
        forall|i: int| 0 <= i < dec_u64(n).len() ==> 48 <= #[trigger] dec_u64(n)[i] <= 57,
        dec_u64(n)[0] == 48 ==> n == 0,
    decreases n,
{
    if n >= 10 {
        lemma_dec_u64_digits(n / 10);
        assert(dec_u64(n) == dec_u64(n / 10).push((48 + n % 10) as u8));
    }
}

/// A value without sentinel bytes passes through the strip step unchanged.
pub proof fn lemma_strip_no_sentinel(v: u64)
    requires
        forall|i: u64| i < 8 ==> #[trigger] byte_of(v, i) != SENTINEL_BYTE,
    ensures
        strip_spec(v) == v,
{
    assert(byte_of(v, 0) != 0xcc);
    assert(byte_of(v, 1) != 0xcc);
    assert(byte_of(v, 2) != 0xcc);
    assert(byte_of(v, 3) != 0xcc);
    assert(byte_of(v, 4) != 0xcc);
    assert(byte_of(v, 5) != 0xcc);
    assert(byte_of(v, 6) != 0xcc);
    assert(byte_of(v, 7) != 0xcc);
    assert(strip_upto(v, 0) == 0u64);
    assert(strip_upto(v, 1) == strip_upto(v, 0) | ((byte_of(v, 0) << 0u64) as u64));
    assert(strip_upto(v, 2) == strip_upto(v, 1) | ((byte_of(v, 1) << 8u64) as u64));
    assert(strip_upto(v, 3) == strip_upto(v, 2) | ((byte_of(v, 2) << 16u64) as u64));
    assert(strip_upto(v, 4) == strip_upto(v, 3) | ((byte_of(v, 3) << 24u64) as u64));
    assert(strip_upto(v, 5) == strip_upto(v, 4) | ((byte_of(v, 4) << 32u64) as u64));
    assert(strip_upto(v, 6) == strip_upto(v, 5) | ((byte_of(v, 5) << 40u64) as u64));
    assert(strip_upto(v, 7) == strip_upto(v, 6) | ((byte_of(v, 6) << 48u64) as u64));
    assert(strip_upto(v, 8) == strip_upto(v, 7) | ((byte_of(v, 7) << 56u64) as u64));
    assert(strip_upto(v, 8) == 0u64 | (((v >> 0u64) & 0xff) << 0u64) | (((v >> 8u64) & 0xff)
        << 8u64) | (((v >> 16u64) & 0xff) << 16u64) | (((v >> 24u64) & 0xff) << 24u64) | (((v
        >> 32u64) & 0xff) << 32u64) | (((v >> 40u64) & 0xff) << 40u64) | (((v >> 48u64) & 0xff)
        << 48u64) | (((v >> 56u64) & 0xff) << 56u64));
    assert(0u64 | (((v >> 0u64) & 0xff) << 0u64) | (((v >> 8u64) & 0xff) << 8u64) | (((v
        >> 16u64) & 0xff) << 16u64) | (((v >> 24u64) & 0xff) << 24u64) | (((v >> 32u64) & 0xff)
        << 32u64) | (((v >> 40u64) & 0xff) << 40u64) | (((v >> 48u64) & 0xff) << 48u64) | (((v
        >> 56u64) & 0xff) << 56u64) == v) by (bit_vector);
}

/// What the print builtin writes for a value free of sentinel bytes: the
/// value's own decimal digits, no leading zero (a lone `0` for zero), then
/// CRLF.
pub proof fn lemma_print_decimal(v: u64)
    requires
        forall|i: u64| i < 8 ==> #[trigger] byte_of(v, i) != SENTINEL_BYTE,
    ensures
        print_bytes(v) == dec_u64(v) + seq![CR, LF],
        v > 0 ==> dec_u64(v)[0] != 48,
        v == 0 ==> dec_u64(v) == seq![48u8],
{
    lemma_strip_no_sentinel(v);
    lemma_dec_u64_digits(v);
    if v == 0 {
        assert(dec_u64(0) =~= seq![48u8]);
    }
}

} // verus!
