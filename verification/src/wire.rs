//! Byte-level primitives of the worker's wire format.
//!
//! Every message that crosses a process boundary — a request from the host,
//! a response back to it, a job result piped from the child — is a single
//! frame: an 8-byte little-endian length prefix followed by the payload.
//! Inside a payload, integers are little-endian and variable-length fields
//! carry their own 8-byte length prefix.
//!
//! Each encoder has a spec twin describing the exact bytes produced, and
//! each reader is proved equal to a spec parser, so that the composite
//! codecs can state loss-free round trips.

use vstd::prelude::*;
use vstd::bytes::lemma_auto_spec_u64_to_from_le_bytes;
use vstd::bytes::spec_u64_from_le_bytes;
use vstd::bytes::spec_u64_to_le_bytes;
use vstd::bytes::u64_from_le_bytes;
use vstd::bytes::u64_to_le_bytes;
use vstd::slice::slice_subrange;
use vstd::slice::slice_to_vec;

verus! {

// ---------------------------------------------------------------------------
// Signed 32-bit values on the wire (two's complement in a u32 slot)
// ---------------------------------------------------------------------------

/// The unsigned 32-bit slot that carries `x` on the wire.
pub open spec fn spec_i32_as_u32(x: i32) -> u32 {
    if x >= 0 {
        x as u32
    } else {
        (x + 0x1_0000_0000) as u32
    }
}

/// Inverse of [`spec_i32_as_u32`].
pub open spec fn spec_u32_as_i32(x: u32) -> i32 {
    if x <= 0x7fff_ffff {
        x as i32
    } else {
        (x - 0x1_0000_0000) as i32
    }
}

pub fn i32_to_u32(x: i32) -> (r: u32)
    ensures
        r == spec_i32_as_u32(x),
{
    if x >= 0 {
        x as u32
    } else {
        ((x as i64) + 0x1_0000_0000i64) as u32
    }
}

pub fn u32_to_i32(x: u32) -> (r: i32)
    ensures
        r == spec_u32_as_i32(x),
{
    if x <= 0x7fff_ffff {
        x as i32
    } else {
        ((x as i64) - 0x1_0000_0000i64) as i32
    }
}

// ---------------------------------------------------------------------------
// Writers
// ---------------------------------------------------------------------------

/// Appends a copy of `s` to `out`.
pub fn append_bytes(out: &mut Vec<u8>, s: &[u8])
    ensures
        final(out)@ == old(out)@ + s@,
{
    let ghost out0: Seq<u8> = out@;
    let mut i: usize = 0;
    while i < s.len()
        invariant
            i <= s@.len(),
            out@ == out0 + s@.subrange(0, i as int),
        decreases s@.len() - i,
    {
        out.push(s[i]);
        proof {
            assert(out0 + s@.subrange(0, i as int) + seq![s@[i as int]] =~= out0 + s@.subrange(
                0,
                i + 1,
            ));
        }
        i = i + 1;
    }
    proof {
        assert(out0 + s@.subrange(0, s@.len() as int) =~= out0 + s@);
    }
}

pub fn write_u8(out: &mut Vec<u8>, x: u8)
    ensures
        final(out)@ == old(out)@ + seq![x],
{
    out.push(x);
    proof {
        assert(old(out)@.push(x) =~= old(out)@ + seq![x]);
    }
}

pub fn write_u64(out: &mut Vec<u8>, x: u64)
    ensures
        final(out)@ == old(out)@ + spec_u64_to_le_bytes(x),
{
    let mut b = u64_to_le_bytes(x);
    out.append(&mut b);
}

/// Writes `b` with its 8-byte length prefix.
pub fn write_len_prefixed(out: &mut Vec<u8>, b: &[u8])
    ensures
        final(out)@ == old(out)@ + spec_encode_bytes(b@),
{
    let n: u64 = b.len() as u64;
    write_u64(out, n);
    append_bytes(out, b);
    proof {
        assert(old(out)@ + spec_u64_to_le_bytes(n) + b@ =~= old(out)@ + spec_encode_bytes(b@));
    }
}

/// Builds the frame that carries `payload`: its 8-byte little-endian length,
/// then the payload itself.
pub fn frame_payload(payload: &[u8]) -> (out: Vec<u8>)
    ensures
        out@ == spec_frame(payload@),
{
    let mut out: Vec<u8> = Vec::new();
    write_len_prefixed(&mut out, payload);
    proof {
        assert(Seq::<u8>::empty() + spec_encode_bytes(payload@) =~= spec_frame(payload@));
    }
    out
}

// ---------------------------------------------------------------------------
// Spec encoders and parsers
// ---------------------------------------------------------------------------

/// A variable-length field: 8-byte little-endian length, then the bytes.
pub open spec fn spec_encode_bytes(b: Seq<u8>) -> Seq<u8> {
    spec_u64_to_le_bytes(b.len() as u64) + b
}

/// A whole frame is one length-prefixed payload and nothing after it.
pub open spec fn spec_frame(payload: Seq<u8>) -> Seq<u8> {
    spec_encode_bytes(payload)
}

/// Reads a u64 at offset `i`; yields the value and the next offset.
pub open spec fn spec_take_u64(s: Seq<u8>, i: int) -> Option<(u64, int)> {
    if 0 <= i && i + 8 <= s.len() {
        Some((spec_u64_from_le_bytes(s.subrange(i, i + 8)), i + 8))
    } else {
        None
    }
}

/// Reads one byte at offset `i`.
pub open spec fn spec_take_u8(s: Seq<u8>, i: int) -> Option<(u8, int)> {
    if 0 <= i && i + 1 <= s.len() {
        Some((s[i], i + 1))
    } else {
        None
    }
}

/// Reads a length-prefixed field at offset `i`.
pub open spec fn spec_take_bytes(s: Seq<u8>, i: int) -> Option<(Seq<u8>, int)> {
    match spec_take_u64(s, i) {
        None => None,
        Some((n, j)) => if j + n <= s.len() {
            Some((s.subrange(j, j + n), j + n))
        } else {
            None
        },
    }
}

/// A strict frame parse: the length prefix must account for every remaining
/// byte.
pub open spec fn spec_unframe(s: Seq<u8>) -> Option<Seq<u8>> {
    match spec_take_bytes(s, 0) {
        Some((p, j)) => if j == s.len() {
            Some(p)
        } else {
            None
        },
        None => None,
    }
}

// ---------------------------------------------------------------------------
// Readers
// ---------------------------------------------------------------------------

pub fn read_u64(s: &[u8], i: usize) -> (r: Option<(u64, usize)>)
    requires
        i <= s@.len(),
    ensures
        match r {
            Some((x, j)) => spec_take_u64(s@, i as int) == Some((x, j as int)) && j <= s@.len(),
            None => spec_take_u64(s@, i as int) is None,
        },
{
    if s.len() - i >= 8 {
        let sub = slice_subrange(s, i, i + 8);
        let x = u64_from_le_bytes(sub);
        Some((x, i + 8))
    } else {
        None
    }
}

pub fn read_u8(s: &[u8], i: usize) -> (r: Option<(u8, usize)>)
    requires
        i <= s@.len(),
    ensures
        match r {
            Some((x, j)) => spec_take_u8(s@, i as int) == Some((x, j as int)) && j <= s@.len(),
            None => spec_take_u8(s@, i as int) is None,
        },
{
    if s.len() - i >= 1 {
        Some((s[i], i + 1))
    } else {
        None
    }
}

pub fn read_bytes(s: &[u8], i: usize) -> (r: Option<(Vec<u8>, usize)>)
    requires
        i <= s@.len(),
    ensures
        match r {
            Some((b, j)) => spec_take_bytes(s@, i as int) == Some((b@, j as int)) && j <= s@.len(),
            None => spec_take_bytes(s@, i as int) is None,
        },
{
    match read_u64(s, i) {
        None => None,
        Some((n, j)) => {
            if n <= (s.len() - j) as u64 {
                let k = j + (n as usize);
                let sub = slice_subrange(s, j, k);
                let b = slice_to_vec(sub);
                Some((b, k))
            } else {
                None
            }
        },
    }
}

// ---------------------------------------------------------------------------
// Parse-of-encode lemmas
// ---------------------------------------------------------------------------

/// A u64 written at offset `i` parses back to itself.
pub proof fn lemma_take_u64(s: Seq<u8>, i: int, x: u64)
    requires
        0 <= i,
        i + 8 <= s.len(),
        s.subrange(i, i + 8) == spec_u64_to_le_bytes(x),
    ensures
        spec_take_u64(s, i) == Some((x, i + 8)),
{
    lemma_auto_spec_u64_to_from_le_bytes();
}

/// A single byte written at offset `i` parses back to itself.
pub proof fn lemma_take_u8(s: Seq<u8>, i: int, x: u8)
    requires
        0 <= i,
        i + 1 <= s.len(),
        s.subrange(i, i + 1) == seq![x],
    ensures
        spec_take_u8(s, i) == Some((x, i + 1)),
{
    assert(s[i] == s.subrange(i, i + 1)[0]);
}

/// A length-prefixed field written at offset `i` parses back to itself.
pub proof fn lemma_take_bytes(s: Seq<u8>, i: int, b: Seq<u8>)
    requires
        0 <= i,
        b.len() <= u64::MAX,
        i + 8 + b.len() <= s.len(),
        s.subrange(i, i + 8 + b.len()) == spec_encode_bytes(b),
    ensures
        spec_take_bytes(s, i) == Some((b, i + 8 + b.len())),
{
    lemma_auto_spec_u64_to_from_le_bytes();
    let n: u64 = b.len() as u64;
    let enc = spec_encode_bytes(b);
    assert(s.subrange(i, i + 8) =~= enc.subrange(0, 8));
    assert(enc.subrange(0, 8) =~= spec_u64_to_le_bytes(n));
    lemma_take_u64(s, i, n);
    assert(s.subrange(i + 8, i + 8 + b.len()) =~= enc.subrange(8, enc.len() as int));
    assert(enc.subrange(8, enc.len() as int) =~= b);
}

// ---------------------------------------------------------------------------
// Soundness: a successful parse consumed exactly its value's encoding
// ---------------------------------------------------------------------------

pub proof fn lemma_sound_u64(s: Seq<u8>, i: int, x: u64, j: int)
    requires
        spec_take_u64(s, i) == Some((x, j)),
    ensures
        0 <= i,
        j == i + 8,
        j <= s.len(),
        s.subrange(i, j) == spec_u64_to_le_bytes(x),
{
    lemma_auto_spec_u64_to_from_le_bytes();
}

pub proof fn lemma_sound_u8(s: Seq<u8>, i: int, x: u8, j: int)
    requires
        spec_take_u8(s, i) == Some((x, j)),
    ensures
        0 <= i,
        j == i + 1,
        j <= s.len(),
        s.subrange(i, j) == seq![x],
{
    assert(s.subrange(i, j) =~= seq![x]);
}

pub proof fn lemma_sound_bytes(s: Seq<u8>, i: int, b: Seq<u8>, j: int)
    requires
        spec_take_bytes(s, i) == Some((b, j)),
    ensures
        0 <= i,
        i + 8 <= j <= s.len(),
        b.len() == j - i - 8,
        b.len() <= u64::MAX,
        s.subrange(i, j) == spec_encode_bytes(b),
{
    lemma_auto_spec_u64_to_from_le_bytes();
    let n = spec_u64_from_le_bytes(s.subrange(i, i + 8));
    assert(b == s.subrange(i + 8, j));
    assert(b.len() == n);
    assert(spec_u64_to_le_bytes(b.len() as u64) == s.subrange(i, i + 8));
    assert(s.subrange(i, j) =~= s.subrange(i, i + 8) + s.subrange(i + 8, j));
}

/// A frame that parses strictly is exactly the frame of its payload.
pub proof fn lemma_sound_unframe(s: Seq<u8>, p: Seq<u8>)
    requires
        spec_unframe(s) == Some(p),
    ensures
        s == spec_frame(p),
{
    let (b, j) = spec_take_bytes(s, 0)->Some_0;
    lemma_sound_bytes(s, 0, b, j);
    assert(s.subrange(0, s.len() as int) =~= s);
}

/// Framing parses back exactly when nothing follows the frame.
pub proof fn lemma_unframe(payload: Seq<u8>)
    requires
        payload.len() <= u64::MAX,
    ensures
        spec_unframe(spec_frame(payload)) == Some(payload),
{
    lemma_auto_spec_u64_to_from_le_bytes();
    let s = spec_frame(payload);
    assert(s.subrange(0, 8 + payload.len() as int) =~= spec_encode_bytes(payload));
    lemma_take_bytes(s, 0, payload);
}

} // verus!
