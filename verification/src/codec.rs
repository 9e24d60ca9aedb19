//! The deterministic binary wire format: fixed-width big-endian integers,
//! length-prefixed UTF-8 strings, one-byte variant tags. Every value the
//! protocol sends has a spec-level encoder and decoder here, an executable
//! encoder and decoder proved against them, and a proof that decoding an
//! encoding gives the value back.
//!
//! Signed integers travel as their two's-complement unsigned counterpart;
//! string lengths count UTF-8 bytes and travel as 64-bit values.

use vstd::prelude::*;

verus! {

use crate::event::{KeyCode, KvmEvent, MouseButton};
use vstd::slice::{slice_subrange, slice_to_vec};
use vstd::string::StrSliceExecFns;
use vstd::utf8::{
    decode_utf8,
    encode_utf8,
    encode_utf8_decode_utf8,
    encode_utf8_valid_utf8,
    valid_utf8,
};

// ---------------------------------------------------------------------
// Unsigned integers, big-endian.
// ---------------------------------------------------------------------

/// The two big-endian bytes of `x`.
pub open spec fn spec_enc_u16(x: u16) -> Seq<u8> {
    seq![((x >> 8) & 0xff) as u8, (x & 0xff) as u8]
}

/// Reads two big-endian bytes at `i`.
pub open spec fn spec_dec_u16(s: Seq<u8>, i: int) -> Option<(u16, int)> {
    if 0 <= i && i + 2 <= s.len() {
        Some((((s[i] as u16) << 8) | (s[i + 1] as u16), i + 2))
    } else {
        None
    }
}

/// The four big-endian bytes of `x`.
pub open spec fn spec_enc_u32(x: u32) -> Seq<u8> {
    seq![
        ((x >> 24) & 0xff) as u8,
        ((x >> 16) & 0xff) as u8,
        ((x >> 8) & 0xff) as u8,
        (x & 0xff) as u8,
    ]
}

/// Reads four big-endian bytes at `i`.
pub open spec fn spec_dec_u32(s: Seq<u8>, i: int) -> Option<(u32, int)> {
    if 0 <= i && i + 4 <= s.len() {
        Some(
            (
                ((s[i] as u32) << 24) | ((s[i + 1] as u32) << 16) | ((s[i + 2] as u32) << 8) | (s[i
                    + 3] as u32),
                i + 4,
            ),
        )
    } else {
        None
    }
}

/// The eight big-endian bytes of `x`.
pub open spec fn spec_enc_u64(x: u64) -> Seq<u8> {
    seq![
        ((x >> 56) & 0xff) as u8,
        ((x >> 48) & 0xff) as u8,
        ((x >> 40) & 0xff) as u8,
        ((x >> 32) & 0xff) as u8,
        ((x >> 24) & 0xff) as u8,
        ((x >> 16) & 0xff) as u8,
        ((x >> 8) & 0xff) as u8,
        (x & 0xff) as u8,
    ]
}

/// Reads eight big-endian bytes at `i`.
pub open spec fn spec_dec_u64(s: Seq<u8>, i: int) -> Option<(u64, int)> {
    if 0 <= i && i + 8 <= s.len() {
        Some(
            (
                ((s[i] as u64) << 56) | ((s[i + 1] as u64) << 48) | ((s[i + 2] as u64) << 40) | ((
                s[i + 3] as u64) << 32) | ((s[i + 4] as u64) << 24) | ((s[i + 5] as u64) << 16) | ((
                s[i + 6] as u64) << 8) | (s[i + 7] as u64),
                i + 8,
            ),
        )
    } else {
        None
    }
}

/// Reading two bytes where an encoding of `x` was written yields `x`.
pub proof fn lemma_dec_enc_u16(s: Seq<u8>, i: int, x: u16)
    requires
        0 <= i,
        i + 2 <= s.len(),
        s.subrange(i, i + 2) == spec_enc_u16(x),
    ensures
        spec_dec_u16(s, i) == Some((x, i + 2)),
{
    assert(s[i] == spec_enc_u16(x)[0] && s[i + 1] == spec_enc_u16(x)[1]) by {
        assert(s.subrange(i, i + 2)[0] == s[i]);
        assert(s.subrange(i, i + 2)[1] == s[i + 1]);
    }
    assert((((((x >> 8) & 0xff) as u8) as u16) << 8) | (((x & 0xff) as u8) as u16) == x)
        by (bit_vector);
}

/// Reading four bytes where an encoding of `x` was written yields `x`.
pub proof fn lemma_dec_enc_u32(s: Seq<u8>, i: int, x: u32)
    requires
        0 <= i,
        i + 4 <= s.len(),
        s.subrange(i, i + 4) == spec_enc_u32(x),
    ensures
        spec_dec_u32(s, i) == Some((x, i + 4)),
{
    assert(s[i] == spec_enc_u32(x)[0] && s[i + 1] == spec_enc_u32(x)[1] && s[i + 2] == spec_enc_u32(
        x,
    )[2] && s[i + 3] == spec_enc_u32(x)[3]) by {
        assert(s.subrange(i, i + 4)[0] == s[i]);
        assert(s.subrange(i, i + 4)[1] == s[i + 1]);
        assert(s.subrange(i, i + 4)[2] == s[i + 2]);
        assert(s.subrange(i, i + 4)[3] == s[i + 3]);
    }
    assert(((((((x >> 24) & 0xff) as u8) as u32) << 24) | (((((x >> 16) & 0xff) as u8) as u32)
        << 16) | (((((x >> 8) & 0xff) as u8) as u32) << 8) | (((x & 0xff) as u8) as u32)) == x)
        by (bit_vector);
}

/// Reading eight bytes where an encoding of `x` was written yields `x`.
pub proof fn lemma_dec_enc_u64(s: Seq<u8>, i: int, x: u64)
    requires
        0 <= i,
        i + 8 <= s.len(),
        s.subrange(i, i + 8) == spec_enc_u64(x),
    ensures
        spec_dec_u64(s, i) == Some((x, i + 8)),
{
    assert(s[i] == spec_enc_u64(x)[0] && s[i + 1] == spec_enc_u64(x)[1] && s[i + 2] == spec_enc_u64(
        x,
    )[2] && s[i + 3] == spec_enc_u64(x)[3] && s[i + 4] == spec_enc_u64(x)[4] && s[i + 5]
        == spec_enc_u64(x)[5] && s[i + 6] == spec_enc_u64(x)[6] && s[i + 7] == spec_enc_u64(x)[7])
        by {
        assert(s.subrange(i, i + 8)[0] == s[i]);
        assert(s.subrange(i, i + 8)[1] == s[i + 1]);
        assert(s.subrange(i, i + 8)[2] == s[i + 2]);
        assert(s.subrange(i, i + 8)[3] == s[i + 3]);
        assert(s.subrange(i, i + 8)[4] == s[i + 4]);
        assert(s.subrange(i, i + 8)[5] == s[i + 5]);
        assert(s.subrange(i, i + 8)[6] == s[i + 6]);
        assert(s.subrange(i, i + 8)[7] == s[i + 7]);
    }
    assert(((((((x >> 56) & 0xff) as u8) as u64) << 56) | (((((x >> 48) & 0xff) as u8) as u64)
        << 48) | (((((x >> 40) & 0xff) as u8) as u64) << 40) | (((((x >> 32) & 0xff) as u8) as u64)
        << 32) | (((((x >> 24) & 0xff) as u8) as u64) << 24) | (((((x >> 16) & 0xff) as u8) as u64)
        << 16) | (((((x >> 8) & 0xff) as u8) as u64) << 8) | (((x & 0xff) as u8) as u64)) == x)
        by (bit_vector);
}

/// Appends the big-endian bytes of `x`.
pub fn enc_u16_into(out: &mut Vec<u8>, x: u16)
    ensures
        final(out)@ == old(out)@ + spec_enc_u16(x),
{
    proof {
        assert((x >> 8) & 0xff < 256 && x & 0xff < 256) by (bit_vector);
    }
    out.push(((x >> 8) & 0xff) as u8);
    out.push((x & 0xff) as u8);
    proof {
        assert(out@ =~= old(out)@ + spec_enc_u16(x));
    }
}

/// Appends the big-endian bytes of `x`.
pub fn enc_u32_into(out: &mut Vec<u8>, x: u32)
    ensures
        final(out)@ == old(out)@ + spec_enc_u32(x),
{
    proof {
        assert((x >> 24) & 0xff < 256 && (x >> 16) & 0xff < 256 && (x >> 8) & 0xff < 256 && x
            & 0xff < 256) by (bit_vector);
    }
    out.push(((x >> 24) & 0xff) as u8);
    out.push(((x >> 16) & 0xff) as u8);
    out.push(((x >> 8) & 0xff) as u8);
    out.push((x & 0xff) as u8);
    proof {
        assert(out@ =~= old(out)@ + spec_enc_u32(x));
    }
}

/// Appends the big-endian bytes of `x`.
pub fn enc_u64_into(out: &mut Vec<u8>, x: u64)
    ensures
        final(out)@ == old(out)@ + spec_enc_u64(x),
{
    proof {
        assert((x >> 56) & 0xff < 256 && (x >> 48) & 0xff < 256 && (x >> 40) & 0xff < 256 && (x
            >> 32) & 0xff < 256 && (x >> 24) & 0xff < 256 && (x >> 16) & 0xff < 256 && (x >> 8)
            & 0xff < 256 && x & 0xff < 256) by (bit_vector);
    }
    out.push(((x >> 56) & 0xff) as u8);
    out.push(((x >> 48) & 0xff) as u8);
    out.push(((x >> 40) & 0xff) as u8);
    out.push(((x >> 32) & 0xff) as u8);
    out.push(((x >> 24) & 0xff) as u8);
    out.push(((x >> 16) & 0xff) as u8);
    out.push(((x >> 8) & 0xff) as u8);
    out.push((x & 0xff) as u8);
    proof {
        assert(out@ =~= old(out)@ + spec_enc_u64(x));
    }
}

/// Reads two big-endian bytes at `i`.
pub fn dec_u16_at(b: &[u8], i: usize) -> (r: Option<(u16, usize)>)
    ensures
        r matches Some((x, j)) ==> spec_dec_u16(b@, i as int) == Some((x, j as int)),
        r is None ==> spec_dec_u16(b@, i as int) is None,
{
    if b.len() >= 2 && i <= b.len() - 2 {
        let v: u16 = ((b[i] as u16) << 8) | (b[i + 1] as u16);
        Some((v, i + 2))
    } else {
        None
    }
}

/// Reads four big-endian bytes at `i`.
pub fn dec_u32_at(b: &[u8], i: usize) -> (r: Option<(u32, usize)>)
    ensures
        r matches Some((x, j)) ==> spec_dec_u32(b@, i as int) == Some((x, j as int)),
        r is None ==> spec_dec_u32(b@, i as int) is None,
{
    if b.len() >= 4 && i <= b.len() - 4 {
        let v: u32 = ((b[i] as u32) << 24) | ((b[i + 1] as u32) << 16) | ((b[i + 2] as u32) << 8)
            | (b[i + 3] as u32);
        Some((v, i + 4))
    } else {
        None
    }
}

/// Reads eight big-endian bytes at `i`.
pub fn dec_u64_at(b: &[u8], i: usize) -> (r: Option<(u64, usize)>)
    ensures
        r matches Some((x, j)) ==> spec_dec_u64(b@, i as int) == Some((x, j as int)),
        r is None ==> spec_dec_u64(b@, i as int) is None,
{
    if b.len() >= 8 && i <= b.len() - 8 {
        let v: u64 = ((b[i] as u64) << 56) | ((b[i + 1] as u64) << 48) | ((b[i + 2] as u64) << 40)
            | ((b[i + 3] as u64) << 32) | ((b[i + 4] as u64) << 24) | ((b[i + 5] as u64) << 16) | ((
        b[i + 6] as u64) << 8) | (b[i + 7] as u64);
        Some((v, i + 8))
    } else {
        None
    }
}

// ---------------------------------------------------------------------
// Signed integers, as two's complement.
// ---------------------------------------------------------------------

/// The unsigned 32-bit value with the two's-complement bit pattern of `x`.
pub open spec fn spec_u32_of_i32(x: i32) -> u32 {
    if x >= 0 {
        x as u32
    } else {
        (x + 0x1_0000_0000) as u32
    }
}

/// The signed reading of a 32-bit two's-complement pattern.
pub open spec fn spec_i32_of_u32(v: u32) -> i32 {
    if v < 0x8000_0000 {
        v as i32
    } else {
        (v - 0x1_0000_0000) as i32
    }
}

/// The unsigned 64-bit value with the two's-complement bit pattern of `x`.
pub open spec fn spec_u64_of_i64(x: i64) -> u64 {
    if x >= 0 {
        x as u64
    } else {
        (x + 0x1_0000_0000_0000_0000) as u64
    }
}

/// The signed reading of a 64-bit two's-complement pattern.
pub open spec fn spec_i64_of_u64(v: u64) -> i64 {
    if v < 0x8000_0000_0000_0000 {
        v as i64
    } else {
        (v - 0x1_0000_0000_0000_0000) as i64
    }
}

/// The four bytes of `x` in two's complement, big-endian.
pub open spec fn spec_enc_i32(x: i32) -> Seq<u8> {
    spec_enc_u32(spec_u32_of_i32(x))
}

/// Reads a 32-bit two's-complement value at `i`.
pub open spec fn spec_dec_i32(s: Seq<u8>, i: int) -> Option<(i32, int)> {
    match spec_dec_u32(s, i) {
        Some((v, j)) => Some((spec_i32_of_u32(v), j)),
        None => None,
    }
}

/// The eight bytes of `x` in two's complement, big-endian.
pub open spec fn spec_enc_i64(x: i64) -> Seq<u8> {
    spec_enc_u64(spec_u64_of_i64(x))
}

/// Reads a 64-bit two's-complement value at `i`.
pub open spec fn spec_dec_i64(s: Seq<u8>, i: int) -> Option<(i64, int)> {
    match spec_dec_u64(s, i) {
        Some((v, j)) => Some((spec_i64_of_u64(v), j)),
        None => None,
    }
}

/// Reading four bytes where an encoding of `x` was written yields `x`.
pub proof fn lemma_dec_enc_i32(s: Seq<u8>, i: int, x: i32)
    requires
        0 <= i,
        i + 4 <= s.len(),
        s.subrange(i, i + 4) == spec_enc_i32(x),
    ensures
        spec_dec_i32(s, i) == Some((x, i + 4)),
{
    lemma_dec_enc_u32(s, i, spec_u32_of_i32(x));
}

/// Reading eight bytes where an encoding of `x` was written yields `x`.
pub proof fn lemma_dec_enc_i64(s: Seq<u8>, i: int, x: i64)
    requires
        0 <= i,
        i + 8 <= s.len(),
        s.subrange(i, i + 8) == spec_enc_i64(x),
    ensures
        spec_dec_i64(s, i) == Some((x, i + 8)),
{
    lemma_dec_enc_u64(s, i, spec_u64_of_i64(x));
}

/// Appends the two's-complement bytes of `x`.
pub fn enc_i32_into(out: &mut Vec<u8>, x: i32)
    ensures
        final(out)@ == old(out)@ + spec_enc_i32(x),
{
    let v: u32 = if x >= 0 {
        x as u32
    } else {
        ((x as i64) + 0x1_0000_0000i64) as u32
    };
    enc_u32_into(out, v);
}

/// Appends the two's-complement bytes of `x`.
pub fn enc_i64_into(out: &mut Vec<u8>, x: i64)
    ensures
        final(out)@ == old(out)@ + spec_enc_i64(x),
{
    let v: u64 = if x >= 0 {
        x as u64
    } else {
        ((x as i128) + 0x1_0000_0000_0000_0000i128) as u64
    };
    enc_u64_into(out, v);
}

/// Reads a 32-bit two's-complement value at `i`.
pub fn dec_i32_at(b: &[u8], i: usize) -> (r: Option<(i32, usize)>)
    ensures
        r matches Some((x, j)) ==> spec_dec_i32(b@, i as int) == Some((x, j as int)),
        r is None ==> spec_dec_i32(b@, i as int) is None,
{
    match dec_u32_at(b, i) {
        Some((v, j)) => {
            let x: i32 = if v < 0x8000_0000 {
                v as i32
            } else {
                ((v as i64) - 0x1_0000_0000i64) as i32
            };
            Some((x, j))
        },
        None => None,
    }
}

/// Reads a 64-bit two's-complement value at `i`.
pub fn dec_i64_at(b: &[u8], i: usize) -> (r: Option<(i64, usize)>)
    ensures
        r matches Some((x, j)) ==> spec_dec_i64(b@, i as int) == Some((x, j as int)),
        r is None ==> spec_dec_i64(b@, i as int) is None,
{
    match dec_u64_at(b, i) {
        Some((v, j)) => {
            let x: i64 = if v < 0x8000_0000_0000_0000 {
                v as i64
            } else {
                ((v as i128) - 0x1_0000_0000_0000_0000i128) as i64
            };
            Some((x, j))
        },
        None => None,
    }
}

// ---------------------------------------------------------------------
// Booleans.
// ---------------------------------------------------------------------

/// One byte: `1` for true, `0` for false.
pub open spec fn spec_enc_bool(b: bool) -> Seq<u8> {
    seq![if b { 1u8 } else { 0u8 }]
}

/// Reads a boolean byte at `i`; any other byte value is malformed.
pub open spec fn spec_dec_bool(s: Seq<u8>, i: int) -> Option<(bool, int)> {
    if 0 <= i && i + 1 <= s.len() {
        if s[i] == 0u8 {
            Some((false, i + 1))
        } else if s[i] == 1u8 {
            Some((true, i + 1))
        } else {
            None
        }
    } else {
        None
    }
}

/// Reading one byte where an encoding of `x` was written yields `x`.
pub proof fn lemma_dec_enc_bool(s: Seq<u8>, i: int, x: bool)
    requires
        0 <= i,
        i + 1 <= s.len(),
        s.subrange(i, i + 1) == spec_enc_bool(x),
    ensures
        spec_dec_bool(s, i) == Some((x, i + 1)),
{
    assert(s.subrange(i, i + 1)[0] == s[i]);
}

/// Appends the byte for `b`.
pub fn enc_bool_into(out: &mut Vec<u8>, b: bool)
    ensures
        final(out)@ == old(out)@ + spec_enc_bool(b),
{
    out.push(if b { 1u8 } else { 0u8 });
    proof {
        assert(out@ =~= old(out)@ + spec_enc_bool(b));
    }
}

/// Reads a boolean byte at `i`.
pub fn dec_bool_at(b: &[u8], i: usize) -> (r: Option<(bool, usize)>)
    ensures
        r matches Some((x, j)) ==> spec_dec_bool(b@, i as int) == Some((x, j as int)),
        r is None ==> spec_dec_bool(b@, i as int) is None,
{
    if i < b.len() {
        if b[i] == 0 {
            Some((false, i + 1))
        } else if b[i] == 1 {
            Some((true, i + 1))
        } else {
            None
        }
    } else {
        None
    }
}

/// A window of a matching window: when bytes `[i, i + enc.len())` of `s`
/// spell `enc`, the inner window `[i + a, i + b)` spells the matching part
/// of `enc`.
pub proof fn lemma_window(s: Seq<u8>, i: int, enc: Seq<u8>, a: int, b: int)
    requires
        0 <= i,
        i + enc.len() <= s.len(),
        s.subrange(i, i + enc.len()) == enc,
        0 <= a <= b <= enc.len(),
    ensures
        s.subrange(i + a, i + b) == enc.subrange(a, b),
{
    assert forall|k: int| 0 <= k < b - a implies s.subrange(i + a, i + b)[k] == enc.subrange(
        a,
        b,
    )[k] by {
        assert(s.subrange(i, i + enc.len())[a + k] == enc[a + k]);
    }
    assert(s.subrange(i + a, i + b) =~= enc.subrange(a, b));
}

// ---------------------------------------------------------------------
// Strings: UTF-8 byte count as a 64-bit value, then the UTF-8 bytes.
// ---------------------------------------------------------------------

/// The wire form of a string.
pub open spec fn spec_enc_str(cs: Seq<char>) -> Seq<u8> {
    spec_enc_u64(encode_utf8(cs).len() as u64) + encode_utf8(cs)
}

/// Reads a length-prefixed UTF-8 string at `i`; bytes that are not valid
/// UTF-8 are malformed.
pub open spec fn spec_dec_str(s: Seq<u8>, i: int) -> Option<(Seq<char>, int)> {
    match spec_dec_u64(s, i) {
        Some((n, j)) => if j + n <= s.len() && valid_utf8(s.subrange(j, j + n)) {
            Some((decode_utf8(s.subrange(j, j + n)), j + n))
        } else {
            None
        },
        None => None,
    }
}

/// Reading a string where an encoding of `cs` was written yields `cs`.
/// The byte count must fit the 64-bit length field; every string held in
/// memory satisfies that.
pub proof fn lemma_dec_enc_str(s: Seq<u8>, i: int, cs: Seq<char>)
    requires
        0 <= i,
        encode_utf8(cs).len() < 0x1_0000_0000_0000_0000,
        i + spec_enc_str(cs).len() <= s.len(),
        s.subrange(i, i + spec_enc_str(cs).len()) == spec_enc_str(cs),
    ensures
        spec_dec_str(s, i) == Some((cs, i + spec_enc_str(cs).len())),
{
    let u = encode_utf8(cs);
    let n = u.len() as u64;
    let enc = spec_enc_str(cs);
    let len = enc.len() as int;
    lemma_window(s, i, enc, 0, 8);
    assert(enc.subrange(0, 8) =~= spec_enc_u64(n));
    lemma_dec_enc_u64(s, i, n);
    lemma_window(s, i, enc, 8, len);
    assert(enc.subrange(8, len) =~= u);
    encode_utf8_valid_utf8(cs);
    encode_utf8_decode_utf8(cs);
}

/// Appends the wire form of `s`.
pub fn enc_str_into(out: &mut Vec<u8>, s: &String)
    ensures
        final(out)@ == old(out)@ + spec_enc_str(s@),
{
    let bytes: &[u8] = s.as_str().as_bytes();
    enc_u64_into(out, bytes.len() as u64);
    out.extend_from_slice(bytes);
    proof {
        assert(out@ =~= old(out)@ + spec_enc_str(s@));
    }
}

/// Relies on `String::from_utf8`: it succeeds exactly on valid UTF-8 and
/// returns the string those bytes spell.
#[verifier::external_body]
fn utf8_to_string(v: Vec<u8>) -> (r: Option<String>)
    ensures
        r matches Some(s) ==> valid_utf8(v@) && s@ == decode_utf8(v@),
        r is None ==> !valid_utf8(v@),
{
    String::from_utf8(v).ok()
}

/// Reads a length-prefixed UTF-8 string at `i`.
pub fn dec_str_at(b: &[u8], i: usize) -> (r: Option<(String, usize)>)
    ensures
        r matches Some((st, j)) ==> (spec_dec_str(b@, i as int) matches Some((cs, j2)) && st@ == cs
            && j as int == j2),
        r is None ==> spec_dec_str(b@, i as int) is None,
{
    match dec_u64_at(b, i) {
        Some((n, j)) => {
            if n <= (b.len() - j) as u64 {
                let n_us: usize = n as usize;
                let sub = slice_subrange(b, j, j + n_us);
                let v = slice_to_vec(sub);
                match utf8_to_string(v) {
                    Some(st) => Some((st, j + n_us)),
                    None => None,
                }
            } else {
                None
            }
        },
        None => None,
    }
}

// ---------------------------------------------------------------------
// Optional strings: a presence byte, then the string if present.
// ---------------------------------------------------------------------

/// The wire form of an optional string.
pub open spec fn spec_enc_opt_str(o: Option<Seq<char>>) -> Seq<u8> {
    match o {
        None => seq![0u8],
        Some(cs) => seq![1u8] + spec_enc_str(cs),
    }
}

/// Reads an optional string at `i`; a presence byte other than `0` or `1`
/// is malformed.
pub open spec fn spec_dec_opt_str(s: Seq<u8>, i: int) -> Option<(Option<Seq<char>>, int)> {
    if 0 <= i && i + 1 <= s.len() {
        if s[i] == 0u8 {
            Some((None, i + 1))
        } else if s[i] == 1u8 {
            match spec_dec_str(s, i + 1) {
                Some((cs, j)) => Some((Some(cs), j)),
                None => None,
            }
        } else {
            None
        }
    } else {
        None
    }
}

/// Reading an optional string where an encoding of `o` was written yields
/// `o`.
pub proof fn lemma_dec_enc_opt_str(s: Seq<u8>, i: int, o: Option<Seq<char>>)
    requires
        0 <= i,
        (o matches Some(cs) ==> encode_utf8(cs).len() < 0x1_0000_0000_0000_0000),
        i + spec_enc_opt_str(o).len() <= s.len(),
        s.subrange(i, i + spec_enc_opt_str(o).len()) == spec_enc_opt_str(o),
    ensures
        spec_dec_opt_str(s, i) == Some((o, i + spec_enc_opt_str(o).len())),
{
    let enc = spec_enc_opt_str(o);
    let len = enc.len() as int;
    assert(s.subrange(i, i + len)[0] == s[i]);
    match o {
        None => {
            assert(s[i] == 0u8);
        },
        Some(cs) => {
            assert(enc[0] == 1u8);
            assert(s[i] == 1u8);
            let slen = spec_enc_str(cs).len() as int;
            lemma_window(s, i, enc, 1, len);
            assert(enc.subrange(1, len) =~= spec_enc_str(cs));
            lemma_dec_enc_str(s, i + 1, cs);
        },
    }
}

/// Appends the wire form of `o`.
pub fn enc_opt_str_into(out: &mut Vec<u8>, o: &Option<String>)
    ensures
        final(out)@ == old(out)@ + spec_enc_opt_str(match *o {
            Some(s) => Some(s@),
            None => None,
        }),
{
    match o {
        None => {
            out.push(0u8);
            proof {
                assert(out@ =~= old(out)@ + spec_enc_opt_str(None));
            }
        },
        Some(s) => {
            out.push(1u8);
            enc_str_into(out, s);
            proof {
                assert(out@ =~= old(out)@ + spec_enc_opt_str(Some(s@)));
            }
        },
    }
}

/// Reads an optional string at `i`.
pub fn dec_opt_str_at(b: &[u8], i: usize) -> (r: Option<(Option<String>, usize)>)
    ensures
        r matches Some((os, j)) ==> (spec_dec_opt_str(b@, i as int) matches Some((ocs, j2)) && (
        match os {
            Some(st) => ocs matches Some(cs) && st@ == cs,
            None => ocs is None,
        }) && j as int == j2),
        r is None ==> spec_dec_opt_str(b@, i as int) is None,
{
    if i < b.len() {
        if b[i] == 0 {
            Some((None, i + 1))
        } else if b[i] == 1 {
            match dec_str_at(b, i + 1) {
                Some((st, j)) => Some((Some(st), j)),
                None => None,
            }
        } else {
            None
        }
    } else {
        None
    }
}

// ---------------------------------------------------------------------
// Mouse buttons: a tag byte, then the platform code for unnamed ones.
// ---------------------------------------------------------------------

/// The wire form of a mouse button.
pub open spec fn spec_enc_button(b: MouseButton) -> Seq<u8> {
    match b {
        MouseButton::Left => seq![0u8],
        MouseButton::Right => seq![1u8],
        MouseButton::Middle => seq![2u8],
        MouseButton::Other(c) => seq![3u8] + spec_enc_u32(c),
    }
}

/// Reads a mouse button at `i`; tags above `3` are malformed.
pub open spec fn spec_dec_button(s: Seq<u8>, i: int) -> Option<(MouseButton, int)> {
    if 0 <= i && i + 1 <= s.len() {
        if s[i] == 0u8 {
            Some((MouseButton::Left, i + 1))
        } else if s[i] == 1u8 {
            Some((MouseButton::Right, i + 1))
        } else if s[i] == 2u8 {
            Some((MouseButton::Middle, i + 1))
        } else if s[i] == 3u8 {
            match spec_dec_u32(s, i + 1) {
                Some((c, j)) => Some((MouseButton::Other(c), j)),
                None => None,
            }
        } else {
            None
        }
    } else {
        None
    }
}

/// Reading a button where an encoding of `b` was written yields `b`.
pub proof fn lemma_dec_enc_button(s: Seq<u8>, i: int, b: MouseButton)
    requires
        0 <= i,
        i + spec_enc_button(b).len() <= s.len(),
        s.subrange(i, i + spec_enc_button(b).len()) == spec_enc_button(b),
    ensures
        spec_dec_button(s, i) == Some((b, i + spec_enc_button(b).len())),
{
    let enc = spec_enc_button(b);
    let len = enc.len() as int;
    assert(s.subrange(i, i + len)[0] == s[i]);
    match b {
        MouseButton::Left => {
        },
        MouseButton::Right => {
        },
        MouseButton::Middle => {
        },
        MouseButton::Other(c) => {
            assert(enc[0] == 3u8);
            assert(s[i] == 3u8);
            lemma_window(s, i, enc, 1, len);
            assert(enc.subrange(1, len) =~= spec_enc_u32(c));
            lemma_dec_enc_u32(s, i + 1, c);
        },
    }
}

/// Appends the wire form of `b`.
pub fn enc_button_into(out: &mut Vec<u8>, b: &MouseButton)
    ensures
        final(out)@ == old(out)@ + spec_enc_button(*b),
{
    match b {
        MouseButton::Left => {
            out.push(0u8);
        },
        MouseButton::Right => {
            out.push(1u8);
        },
        MouseButton::Middle => {
            out.push(2u8);
        },
        MouseButton::Other(c) => {
            out.push(3u8);
            enc_u32_into(out, *c);
        },
    }
    proof {
        assert(out@ =~= old(out)@ + spec_enc_button(*b));
    }
}

/// Reads a mouse button at `i`.
pub fn dec_button_at(b: &[u8], i: usize) -> (r: Option<(MouseButton, usize)>)
    ensures
        r matches Some((x, j)) ==> spec_dec_button(b@, i as int) == Some((x, j as int)),
        r is None ==> spec_dec_button(b@, i as int) is None,
{
    if i < b.len() {
        if b[i] == 0 {
            Some((MouseButton::Left, i + 1))
        } else if b[i] == 1 {
            Some((MouseButton::Right, i + 1))
        } else if b[i] == 2 {
            Some((MouseButton::Middle, i + 1))
        } else if b[i] == 3 {
            match dec_u32_at(b, i + 1) {
                Some((c, j)) => Some((MouseButton::Other(c), j)),
                None => None,
            }
        } else {
            None
        }
    } else {
        None
    }
}

// ---------------------------------------------------------------------
// Key codes: the index of a named key as a 32-bit value, or the
// out-of-range marker followed by the raw platform code.
// ---------------------------------------------------------------------

/// Wire tag that introduces a raw platform key code.
pub const KEY_UNKNOWN_TAG: u32 = 105;

/// The wire index of a named key; the marker value for `Unknown`.
pub open spec fn spec_key_index(k: KeyCode) -> u32 {
    match k {
        KeyCode::Alt => 0,
        KeyCode::AltGr => 1,
        KeyCode::Backspace => 2,
        KeyCode::CapsLock => 3,
        KeyCode::ControlLeft => 4,
        KeyCode::ControlRight => 5,
        KeyCode::Delete => 6,
        KeyCode::DownArrow => 7,
        KeyCode::End => 8,
        KeyCode::Escape => 9,
        KeyCode::F1 => 10,
        KeyCode::F10 => 11,
        KeyCode::F11 => 12,
        KeyCode::F12 => 13,
        KeyCode::F2 => 14,
        KeyCode::F3 => 15,
        KeyCode::F4 => 16,
        KeyCode::F5 => 17,
        KeyCode::F6 => 18,
        KeyCode::F7 => 19,
        KeyCode::F8 => 20,
        KeyCode::F9 => 21,
        KeyCode::Home => 22,
        KeyCode::LeftArrow => 23,
        KeyCode::MetaLeft => 24,
        KeyCode::MetaRight => 25,
        KeyCode::PageDown => 26,
        KeyCode::PageUp => 27,
        KeyCode::Return => 28,
        KeyCode::RightArrow => 29,
        KeyCode::ShiftLeft => 30,
        KeyCode::ShiftRight => 31,
        KeyCode::Space => 32,
        KeyCode::Tab => 33,
        KeyCode::UpArrow => 34,
        KeyCode::PrintScreen => 35,
        KeyCode::ScrollLock => 36,
        KeyCode::Pause => 37,
        KeyCode::NumLock => 38,
        KeyCode::BackQuote => 39,
        KeyCode::Num1 => 40,
        KeyCode::Num2 => 41,
        KeyCode::Num3 => 42,
        KeyCode::Num4 => 43,
        KeyCode::Num5 => 44,
        KeyCode::Num6 => 45,
        KeyCode::Num7 => 46,
        KeyCode::Num8 => 47,
        KeyCode::Num9 => 48,
        KeyCode::Num0 => 49,
        KeyCode::Minus => 50,
        KeyCode::Equal => 51,
        KeyCode::KeyQ => 52,
        KeyCode::KeyW => 53,
        KeyCode::KeyE => 54,
        KeyCode::KeyR => 55,
        KeyCode::KeyT => 56,
        KeyCode::KeyY => 57,
        KeyCode::KeyU => 58,
        KeyCode::KeyI => 59,
        KeyCode::KeyO => 60,
        KeyCode::KeyP => 61,
        KeyCode::LeftBracket => 62,
        KeyCode::RightBracket => 63,
        KeyCode::KeyA => 64,
        KeyCode::KeyS => 65,
        KeyCode::KeyD => 66,
        KeyCode::KeyF => 67,
        KeyCode::KeyG => 68,
        KeyCode::KeyH => 69,
        KeyCode::KeyJ => 70,
        KeyCode::KeyK => 71,
        KeyCode::KeyL => 72,
        KeyCode::SemiColon => 73,
        KeyCode::Quote => 74,
        KeyCode::BackSlash => 75,
        KeyCode::IntlBackslash => 76,
        KeyCode::KeyZ => 77,
        KeyCode::KeyX => 78,
        KeyCode::KeyC => 79,
        KeyCode::KeyV => 80,
        KeyCode::KeyB => 81,
        KeyCode::KeyN => 82,
        KeyCode::KeyM => 83,
        KeyCode::Comma => 84,
        KeyCode::Dot => 85,
        KeyCode::Slash => 86,
        KeyCode::Insert => 87,
        KeyCode::KpReturn => 88,
        KeyCode::KpMinus => 89,
        KeyCode::KpPlus => 90,
        KeyCode::KpMultiply => 91,
        KeyCode::KpDivide => 92,
        KeyCode::Kp0 => 93,
        KeyCode::Kp1 => 94,
        KeyCode::Kp2 => 95,
        KeyCode::Kp3 => 96,
        KeyCode::Kp4 => 97,
        KeyCode::Kp5 => 98,
        KeyCode::Kp6 => 99,
        KeyCode::Kp7 => 100,
        KeyCode::Kp8 => 101,
        KeyCode::Kp9 => 102,
        KeyCode::KpDelete => 103,
        KeyCode::Function => 104,
        KeyCode::Unknown(_) => 105,
    }
}

/// The named key at a wire index below the marker.
pub open spec fn spec_key_of_index(t: u32) -> KeyCode {
    match t {
        0u32 => KeyCode::Alt,
        1u32 => KeyCode::AltGr,
        2u32 => KeyCode::Backspace,
        3u32 => KeyCode::CapsLock,
        4u32 => KeyCode::ControlLeft,
        5u32 => KeyCode::ControlRight,
        6u32 => KeyCode::Delete,
        7u32 => KeyCode::DownArrow,
        8u32 => KeyCode::End,
        9u32 => KeyCode::Escape,
        10u32 => KeyCode::F1,
        11u32 => KeyCode::F10,
        12u32 => KeyCode::F11,
        13u32 => KeyCode::F12,
        14u32 => KeyCode::F2,
        15u32 => KeyCode::F3,
        16u32 => KeyCode::F4,
        17u32 => KeyCode::F5,
        18u32 => KeyCode::F6,
        19u32 => KeyCode::F7,
        20u32 => KeyCode::F8,
        21u32 => KeyCode::F9,
        22u32 => KeyCode::Home,
        23u32 => KeyCode::LeftArrow,
        24u32 => KeyCode::MetaLeft,
        25u32 => KeyCode::MetaRight,
        26u32 => KeyCode::PageDown,
        27u32 => KeyCode::PageUp,
        28u32 => KeyCode::Return,
        29u32 => KeyCode::RightArrow,
        30u32 => KeyCode::ShiftLeft,
        31u32 => KeyCode::ShiftRight,
        32u32 => KeyCode::Space,
        33u32 => KeyCode::Tab,
        34u32 => KeyCode::UpArrow,
        35u32 => KeyCode::PrintScreen,
        36u32 => KeyCode::ScrollLock,
        37u32 => KeyCode::Pause,
        38u32 => KeyCode::NumLock,
        39u32 => KeyCode::BackQuote,
        40u32 => KeyCode::Num1,
        41u32 => KeyCode::Num2,
        42u32 => KeyCode::Num3,
        43u32 => KeyCode::Num4,
        44u32 => KeyCode::Num5,
        45u32 => KeyCode::Num6,
        46u32 => KeyCode::Num7,
        47u32 => KeyCode::Num8,
        48u32 => KeyCode::Num9,
        49u32 => KeyCode::Num0,
        50u32 => KeyCode::Minus,
        51u32 => KeyCode::Equal,
        52u32 => KeyCode::KeyQ,
        53u32 => KeyCode::KeyW,
        54u32 => KeyCode::KeyE,
        55u32 => KeyCode::KeyR,
        56u32 => KeyCode::KeyT,
        57u32 => KeyCode::KeyY,
        58u32 => KeyCode::KeyU,
        59u32 => KeyCode::KeyI,
        60u32 => KeyCode::KeyO,
        61u32 => KeyCode::KeyP,
        62u32 => KeyCode::LeftBracket,
        63u32 => KeyCode::RightBracket,
        64u32 => KeyCode::KeyA,
        65u32 => KeyCode::KeyS,
        66u32 => KeyCode::KeyD,
        67u32 => KeyCode::KeyF,
        68u32 => KeyCode::KeyG,
        69u32 => KeyCode::KeyH,
        70u32 => KeyCode::KeyJ,
        71u32 => KeyCode::KeyK,
        72u32 => KeyCode::KeyL,
        73u32 => KeyCode::SemiColon,
        74u32 => KeyCode::Quote,
        75u32 => KeyCode::BackSlash,
        76u32 => KeyCode::IntlBackslash,
        77u32 => KeyCode::KeyZ,
        78u32 => KeyCode::KeyX,
        79u32 => KeyCode::KeyC,
        80u32 => KeyCode::KeyV,
        81u32 => KeyCode::KeyB,
        82u32 => KeyCode::KeyN,
        83u32 => KeyCode::KeyM,
        84u32 => KeyCode::Comma,
        85u32 => KeyCode::Dot,
        86u32 => KeyCode::Slash,
        87u32 => KeyCode::Insert,
        88u32 => KeyCode::KpReturn,
        89u32 => KeyCode::KpMinus,
        90u32 => KeyCode::KpPlus,
        91u32 => KeyCode::KpMultiply,
        92u32 => KeyCode::KpDivide,
        93u32 => KeyCode::Kp0,
        94u32 => KeyCode::Kp1,
        95u32 => KeyCode::Kp2,
        96u32 => KeyCode::Kp3,
        97u32 => KeyCode::Kp4,
        98u32 => KeyCode::Kp5,
        99u32 => KeyCode::Kp6,
        100u32 => KeyCode::Kp7,
        101u32 => KeyCode::Kp8,
        102u32 => KeyCode::Kp9,
        103u32 => KeyCode::KpDelete,
        104u32 => KeyCode::Function,
        _ => KeyCode::Unknown(0),
    }
}

/// The wire form of a key.
pub open spec fn spec_enc_key(k: KeyCode) -> Seq<u8> {
    match k {
        KeyCode::Unknown(c) => spec_enc_u32(KEY_UNKNOWN_TAG) + spec_enc_u32(c),
        _ => spec_enc_u32(spec_key_index(k)),
    }
}

/// Reads a key at `i`; indices above the marker are malformed.
pub open spec fn spec_dec_key(s: Seq<u8>, i: int) -> Option<(KeyCode, int)> {
    match spec_dec_u32(s, i) {
        Some((t, j)) => if t < KEY_UNKNOWN_TAG {
            Some((spec_key_of_index(t), j))
        } else if t == KEY_UNKNOWN_TAG {
            match spec_dec_u32(s, j) {
                Some((c, j2)) => Some((KeyCode::Unknown(c), j2)),
                None => None,
            }
        } else {
            None
        },
        None => None,
    }
}

/// A named key comes back from its own wire index.
pub proof fn lemma_key_index_round_trip(k: KeyCode)
    requires
        !(k matches KeyCode::Unknown(_)),
    ensures
        spec_key_index(k) < KEY_UNKNOWN_TAG,
        spec_key_of_index(spec_key_index(k)) == k,
{
}

/// Reading a key where an encoding of `k` was written yields `k`.
pub proof fn lemma_dec_enc_key(s: Seq<u8>, i: int, k: KeyCode)
    requires
        0 <= i,
        i + spec_enc_key(k).len() <= s.len(),
        s.subrange(i, i + spec_enc_key(k).len()) == spec_enc_key(k),
    ensures
        spec_dec_key(s, i) == Some((k, i + spec_enc_key(k).len())),
{
    let enc = spec_enc_key(k);
    let len = enc.len() as int;
    match k {
        KeyCode::Unknown(c) => {
            lemma_window(s, i, enc, 0, 4);
            assert(enc.subrange(0, 4) =~= spec_enc_u32(KEY_UNKNOWN_TAG));
            lemma_dec_enc_u32(s, i, KEY_UNKNOWN_TAG);
            lemma_window(s, i, enc, 4, len);
            assert(enc.subrange(4, len) =~= spec_enc_u32(c));
            lemma_dec_enc_u32(s, i + 4, c);
        },
        _ => {
            lemma_key_index_round_trip(k);
            lemma_dec_enc_u32(s, i, spec_key_index(k));
        },
    }
}

/// The wire index of a key (the marker for `Unknown`).
pub fn key_index(k: &KeyCode) -> (r: u32)
    ensures
        r == spec_key_index(*k),
{
    match k {
        KeyCode::Alt => 0,
        KeyCode::AltGr => 1,
        KeyCode::Backspace => 2,
        KeyCode::CapsLock => 3,
        KeyCode::ControlLeft => 4,
        KeyCode::ControlRight => 5,
        KeyCode::Delete => 6,
        KeyCode::DownArrow => 7,
        KeyCode::End => 8,
        KeyCode::Escape => 9,
        KeyCode::F1 => 10,
        KeyCode::F10 => 11,
        KeyCode::F11 => 12,
        KeyCode::F12 => 13,
        KeyCode::F2 => 14,
        KeyCode::F3 => 15,
        KeyCode::F4 => 16,
        KeyCode::F5 => 17,
        KeyCode::F6 => 18,
        KeyCode::F7 => 19,
        KeyCode::F8 => 20,
        KeyCode::F9 => 21,
        KeyCode::Home => 22,
        KeyCode::LeftArrow => 23,
        KeyCode::MetaLeft => 24,
        KeyCode::MetaRight => 25,
        KeyCode::PageDown => 26,
        KeyCode::PageUp => 27,
        KeyCode::Return => 28,
        KeyCode::RightArrow => 29,
        KeyCode::ShiftLeft => 30,
        KeyCode::ShiftRight => 31,
        KeyCode::Space => 32,
        KeyCode::Tab => 33,
        KeyCode::UpArrow => 34,
        KeyCode::PrintScreen => 35,
        KeyCode::ScrollLock => 36,
        KeyCode::Pause => 37,
        KeyCode::NumLock => 38,
        KeyCode::BackQuote => 39,
        KeyCode::Num1 => 40,
        KeyCode::Num2 => 41,
        KeyCode::Num3 => 42,
        KeyCode::Num4 => 43,
        KeyCode::Num5 => 44,
        KeyCode::Num6 => 45,
        KeyCode::Num7 => 46,
        KeyCode::Num8 => 47,
        KeyCode::Num9 => 48,
        KeyCode::Num0 => 49,
        KeyCode::Minus => 50,
        KeyCode::Equal => 51,
        KeyCode::KeyQ => 52,
        KeyCode::KeyW => 53,
        KeyCode::KeyE => 54,
        KeyCode::KeyR => 55,
        KeyCode::KeyT => 56,
        KeyCode::KeyY => 57,
        KeyCode::KeyU => 58,
        KeyCode::KeyI => 59,
        KeyCode::KeyO => 60,
        KeyCode::KeyP => 61,
        KeyCode::LeftBracket => 62,
        KeyCode::RightBracket => 63,
        KeyCode::KeyA => 64,
        KeyCode::KeyS => 65,
        KeyCode::KeyD => 66,
        KeyCode::KeyF => 67,
        KeyCode::KeyG => 68,
        KeyCode::KeyH => 69,
        KeyCode::KeyJ => 70,
        KeyCode::KeyK => 71,
        KeyCode::KeyL => 72,
        KeyCode::SemiColon => 73,
        KeyCode::Quote => 74,
        KeyCode::BackSlash => 75,
        KeyCode::IntlBackslash => 76,
        KeyCode::KeyZ => 77,
        KeyCode::KeyX => 78,
        KeyCode::KeyC => 79,
        KeyCode::KeyV => 80,
        KeyCode::KeyB => 81,
        KeyCode::KeyN => 82,
        KeyCode::KeyM => 83,
        KeyCode::Comma => 84,
        KeyCode::Dot => 85,
        KeyCode::Slash => 86,
        KeyCode::Insert => 87,
        KeyCode::KpReturn => 88,
        KeyCode::KpMinus => 89,
        KeyCode::KpPlus => 90,
        KeyCode::KpMultiply => 91,
        KeyCode::KpDivide => 92,
        KeyCode::Kp0 => 93,
        KeyCode::Kp1 => 94,
        KeyCode::Kp2 => 95,
        KeyCode::Kp3 => 96,
        KeyCode::Kp4 => 97,
        KeyCode::Kp5 => 98,
        KeyCode::Kp6 => 99,
        KeyCode::Kp7 => 100,
        KeyCode::Kp8 => 101,
        KeyCode::Kp9 => 102,
        KeyCode::KpDelete => 103,
        KeyCode::Function => 104,
        KeyCode::Unknown(_) => 105,
    }
}

/// The named key at a wire index below the marker.
pub fn key_of_index(t: u32) -> (r: KeyCode)
    ensures
        r == spec_key_of_index(t),
{
    match t {
        0u32 => KeyCode::Alt,
        1u32 => KeyCode::AltGr,
        2u32 => KeyCode::Backspace,
        3u32 => KeyCode::CapsLock,
        4u32 => KeyCode::ControlLeft,
        5u32 => KeyCode::ControlRight,
        6u32 => KeyCode::Delete,
        7u32 => KeyCode::DownArrow,
        8u32 => KeyCode::End,
        9u32 => KeyCode::Escape,
        10u32 => KeyCode::F1,
        11u32 => KeyCode::F10,
        12u32 => KeyCode::F11,
        13u32 => KeyCode::F12,
        14u32 => KeyCode::F2,
        15u32 => KeyCode::F3,
        16u32 => KeyCode::F4,
        17u32 => KeyCode::F5,
        18u32 => KeyCode::F6,
        19u32 => KeyCode::F7,
        20u32 => KeyCode::F8,
        21u32 => KeyCode::F9,
        22u32 => KeyCode::Home,
        23u32 => KeyCode::LeftArrow,
        24u32 => KeyCode::MetaLeft,
        25u32 => KeyCode::MetaRight,
        26u32 => KeyCode::PageDown,
        27u32 => KeyCode::PageUp,
        28u32 => KeyCode::Return,
        29u32 => KeyCode::RightArrow,
        30u32 => KeyCode::ShiftLeft,
        31u32 => KeyCode::ShiftRight,
        32u32 => KeyCode::Space,
        33u32 => KeyCode::Tab,
        34u32 => KeyCode::UpArrow,
        35u32 => KeyCode::PrintScreen,
        36u32 => KeyCode::ScrollLock,
        37u32 => KeyCode::Pause,
        38u32 => KeyCode::NumLock,
        39u32 => KeyCode::BackQuote,
        40u32 => KeyCode::Num1,
        41u32 => KeyCode::Num2,
        42u32 => KeyCode::Num3,
        43u32 => KeyCode::Num4,
        44u32 => KeyCode::Num5,
        45u32 => KeyCode::Num6,
        46u32 => KeyCode::Num7,
        47u32 => KeyCode::Num8,
        48u32 => KeyCode::Num9,
        49u32 => KeyCode::Num0,
        50u32 => KeyCode::Minus,
        51u32 => KeyCode::Equal,
        52u32 => KeyCode::KeyQ,
        53u32 => KeyCode::KeyW,
        54u32 => KeyCode::KeyE,
        55u32 => KeyCode::KeyR,
        56u32 => KeyCode::KeyT,
        57u32 => KeyCode::KeyY,
        58u32 => KeyCode::KeyU,
        59u32 => KeyCode::KeyI,
        60u32 => KeyCode::KeyO,
        61u32 => KeyCode::KeyP,
        62u32 => KeyCode::LeftBracket,
        63u32 => KeyCode::RightBracket,
        64u32 => KeyCode::KeyA,
        65u32 => KeyCode::KeyS,
        66u32 => KeyCode::KeyD,
        67u32 => KeyCode::KeyF,
        68u32 => KeyCode::KeyG,
        69u32 => KeyCode::KeyH,
        70u32 => KeyCode::KeyJ,
        71u32 => KeyCode::KeyK,
        72u32 => KeyCode::KeyL,
        73u32 => KeyCode::SemiColon,
        74u32 => KeyCode::Quote,
        75u32 => KeyCode::BackSlash,
        76u32 => KeyCode::IntlBackslash,
        77u32 => KeyCode::KeyZ,
        78u32 => KeyCode::KeyX,
        79u32 => KeyCode::KeyC,
        80u32 => KeyCode::KeyV,
        81u32 => KeyCode::KeyB,
        82u32 => KeyCode::KeyN,
        83u32 => KeyCode::KeyM,
        84u32 => KeyCode::Comma,
        85u32 => KeyCode::Dot,
        86u32 => KeyCode::Slash,
        87u32 => KeyCode::Insert,
        88u32 => KeyCode::KpReturn,
        89u32 => KeyCode::KpMinus,
        90u32 => KeyCode::KpPlus,
        91u32 => KeyCode::KpMultiply,
        92u32 => KeyCode::KpDivide,
        93u32 => KeyCode::Kp0,
        94u32 => KeyCode::Kp1,
        95u32 => KeyCode::Kp2,
        96u32 => KeyCode::Kp3,
        97u32 => KeyCode::Kp4,
        98u32 => KeyCode::Kp5,
        99u32 => KeyCode::Kp6,
        100u32 => KeyCode::Kp7,
        101u32 => KeyCode::Kp8,
        102u32 => KeyCode::Kp9,
        103u32 => KeyCode::KpDelete,
        104u32 => KeyCode::Function,
        _ => KeyCode::Unknown(0),
    }
}

/// Appends the wire form of `k`.
pub fn enc_key_into(out: &mut Vec<u8>, k: &KeyCode)
    ensures
        final(out)@ == old(out)@ + spec_enc_key(*k),
{
    match k {
        KeyCode::Unknown(c) => {
            enc_u32_into(out, KEY_UNKNOWN_TAG);
            enc_u32_into(out, *c);
            proof {
                assert(out@ =~= old(out)@ + spec_enc_key(*k));
            }
        },
        _ => {
            enc_u32_into(out, key_index(k));
        },
    }
}

/// Reads a key at `i`.
pub fn dec_key_at(b: &[u8], i: usize) -> (r: Option<(KeyCode, usize)>)
    ensures
        r matches Some((x, j)) ==> spec_dec_key(b@, i as int) == Some((x, j as int)),
        r is None ==> spec_dec_key(b@, i as int) is None,
{
    match dec_u32_at(b, i) {
        Some((t, j)) => {
            if t < KEY_UNKNOWN_TAG {
                Some((key_of_index(t), j))
            } else if t == KEY_UNKNOWN_TAG {
                match dec_u32_at(b, j) {
                    Some((c, j2)) => Some((KeyCode::Unknown(c), j2)),
                    None => None,
                }
            } else {
                None
            }
        },
        None => None,
    }
}

// ---------------------------------------------------------------------
// Input events: a tag byte, then the fields of the variant.
// ---------------------------------------------------------------------

/// The wire form of an input event.
pub open spec fn spec_enc_event(e: KvmEvent) -> Seq<u8> {
    match e {
        KvmEvent::PointerMove { x, y } => seq![0u8] + spec_enc_i64(x) + spec_enc_i64(y),
        KvmEvent::Button { button, pressed } => seq![1u8] + spec_enc_button(button)
            + spec_enc_bool(pressed),
        KvmEvent::Key { key, pressed } => seq![2u8] + spec_enc_key(key) + spec_enc_bool(pressed),
        KvmEvent::Wheel { dx, dy } => seq![3u8] + spec_enc_i32(dx) + spec_enc_i32(dy),
    }
}

/// Reads an input event at `i`; tags above `3` are malformed.
pub open spec fn spec_dec_event(s: Seq<u8>, i: int) -> Option<(KvmEvent, int)> {
    if 0 <= i && i + 1 <= s.len() {
        if s[i] == 0u8 {
            match spec_dec_i64(s, i + 1) {
                Some((x, j)) => match spec_dec_i64(s, j) {
                    Some((y, j2)) => Some((KvmEvent::PointerMove { x, y }, j2)),
                    None => None,
                },
                None => None,
            }
        } else if s[i] == 1u8 {
            match spec_dec_button(s, i + 1) {
                Some((button, j)) => match spec_dec_bool(s, j) {
                    Some((pressed, j2)) => Some((KvmEvent::Button { button, pressed }, j2)),
                    None => None,
                },
                None => None,
            }
        } else if s[i] == 2u8 {
            match spec_dec_key(s, i + 1) {
                Some((key, j)) => match spec_dec_bool(s, j) {
                    Some((pressed, j2)) => Some((KvmEvent::Key { key, pressed }, j2)),
                    None => None,
                },
                None => None,
            }
        } else if s[i] == 3u8 {
            match spec_dec_i32(s, i + 1) {
                Some((dx, j)) => match spec_dec_i32(s, j) {
                    Some((dy, j2)) => Some((KvmEvent::Wheel { dx, dy }, j2)),
                    None => None,
                },
                None => None,
            }
        } else {
            None
        }
    } else {
        None
    }
}

/// Reading an event where an encoding of `e` was written yields `e`.
pub proof fn lemma_dec_enc_event(s: Seq<u8>, i: int, e: KvmEvent)
    requires
        0 <= i,
        i + spec_enc_event(e).len() <= s.len(),
        s.subrange(i, i + spec_enc_event(e).len()) == spec_enc_event(e),
    ensures
        spec_dec_event(s, i) == Some((e, i + spec_enc_event(e).len())),
{
    let enc = spec_enc_event(e);
    let len = enc.len() as int;
    assert(s.subrange(i, i + len)[0] == s[i]);
    match e {
        KvmEvent::PointerMove { x, y } => {
            assert(enc[0] == 0u8);
            assert(s[i] == 0u8);
            lemma_window(s, i, enc, 1, 9);
            assert(enc.subrange(1, 9) =~= spec_enc_i64(x));
            lemma_dec_enc_i64(s, i + 1, x);
            lemma_window(s, i, enc, 9, 17);
            assert(enc.subrange(9, 17) =~= spec_enc_i64(y));
            lemma_dec_enc_i64(s, i + 9, y);
        },
        KvmEvent::Button { button, pressed } => {
            assert(enc[0] == 1u8);
            assert(s[i] == 1u8);
            let blen = spec_enc_button(button).len() as int;
            lemma_window(s, i, enc, 1, 1 + blen);
            assert(enc.subrange(1, 1 + blen) =~= spec_enc_button(button));
            lemma_dec_enc_button(s, i + 1, button);
            lemma_window(s, i, enc, 1 + blen, len);
            assert(enc.subrange(1 + blen, len) =~= spec_enc_bool(pressed));
            lemma_dec_enc_bool(s, i + 1 + blen, pressed);
        },
        KvmEvent::Key { key, pressed } => {
            assert(enc[0] == 2u8);
            assert(s[i] == 2u8);
            let klen = spec_enc_key(key).len() as int;
            lemma_window(s, i, enc, 1, 1 + klen);
            assert(enc.subrange(1, 1 + klen) =~= spec_enc_key(key));
            lemma_dec_enc_key(s, i + 1, key);
            lemma_window(s, i, enc, 1 + klen, len);
            assert(enc.subrange(1 + klen, len) =~= spec_enc_bool(pressed));
            lemma_dec_enc_bool(s, i + 1 + klen, pressed);
        },
        KvmEvent::Wheel { dx, dy } => {
            assert(enc[0] == 3u8);
            assert(s[i] == 3u8);
            lemma_window(s, i, enc, 1, 5);
            assert(enc.subrange(1, 5) =~= spec_enc_i32(dx));
            lemma_dec_enc_i32(s, i + 1, dx);
            lemma_window(s, i, enc, 5, 9);
            assert(enc.subrange(5, 9) =~= spec_enc_i32(dy));
            lemma_dec_enc_i32(s, i + 5, dy);
        },
    }
}

/// Appends the wire form of `e`.
pub fn enc_event_into(out: &mut Vec<u8>, e: &KvmEvent)
    ensures
        final(out)@ == old(out)@ + spec_enc_event(*e),
{
    match e {
        KvmEvent::PointerMove { x, y } => {
            out.push(0u8);
            enc_i64_into(out, *x);
            enc_i64_into(out, *y);
        },
        KvmEvent::Button { button, pressed } => {
            out.push(1u8);
            enc_button_into(out, button);
            enc_bool_into(out, *pressed);
        },
        KvmEvent::Key { key, pressed } => {
            out.push(2u8);
            enc_key_into(out, key);
            enc_bool_into(out, *pressed);
        },
        KvmEvent::Wheel { dx, dy } => {
            out.push(3u8);
            enc_i32_into(out, *dx);
            enc_i32_into(out, *dy);
        },
    }
    proof {
        assert(out@ =~= old(out)@ + spec_enc_event(*e));
    }
}

/// Reads an input event at `i`.
pub fn dec_event_at(b: &[u8], i: usize) -> (r: Option<(KvmEvent, usize)>)
    ensures
        r matches Some((x, j)) ==> spec_dec_event(b@, i as int) == Some((x, j as int)),
        r is None ==> spec_dec_event(b@, i as int) is None,
{
    if i < b.len() {
        if b[i] == 0 {
            match dec_i64_at(b, i + 1) {
                Some((x, j)) => match dec_i64_at(b, j) {
                    Some((y, j2)) => Some((KvmEvent::PointerMove { x, y }, j2)),
                    None => None,
                },
                None => None,
            }
        } else if b[i] == 1 {
            match dec_button_at(b, i + 1) {
                Some((button, j)) => match dec_bool_at(b, j) {
                    Some((pressed, j2)) => Some((KvmEvent::Button { button, pressed }, j2)),
                    None => None,
                },
                None => None,
            }
        } else if b[i] == 2 {
            match dec_key_at(b, i + 1) {
                Some((key, j)) => match dec_bool_at(b, j) {
                    Some((pressed, j2)) => Some((KvmEvent::Key { key, pressed }, j2)),
                    None => None,
                },
                None => None,
            }
        } else if b[i] == 3 {
            match dec_i32_at(b, i + 1) {
                Some((dx, j)) => match dec_i32_at(b, j) {
                    Some((dy, j2)) => Some((KvmEvent::Wheel { dx, dy }, j2)),
                    None => None,
                },
                None => None,
            }
        } else {
            None
        }
    } else {
        None
    }
}

} // verus!
