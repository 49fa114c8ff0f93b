//! Wire codec: binary encoding and decoding of the broker's request and
//! result variants, round-trip exact.
//!
//! Layout: all integers little-endian; a string is its UTF-8 byte length as a
//! `u64` followed by its UTF-8 bytes; a sequence is its element count as a
//! `u64` followed by the elements; an enum is a `u32` variant tag followed by
//! the variant's fields in order.

use vstd::prelude::*;
use vstd::utf8::{valid_utf8, encode_utf8, decode_utf8, encode_utf8_valid_utf8,
    encode_utf8_decode_utf8};
use vstd::string::StringSliceAdditionalSpecFns;
use crate::ipc::{RequestView, ChatRequestView, TextRequestView, EmbeddingRequestView, ResultView,
    ChatResultView, TextResultView, EmbeddingResultView, OpenAIGPTRequest,
    OpenAIGPTChatCompletionRequest, OpenAIGPTTextCompletionRequest, OpenAIGPTEmbeddingRequest,
    OpenAIGPTResult, OpenAIGPTChatCompletionResult, OpenAIGPTTextCompletionResult,
    OpenAIGPTEmbeddingResult};

verus! {

// ---------------------------------------------------------------------------
// Fixed-width integers, little-endian
// ---------------------------------------------------------------------------

pub open spec fn spec_enc_u16(x: u16) -> Seq<u8> {
    seq![(x & 0xff) as u8, ((x >> 8) & 0xff) as u8]
}

pub open spec fn spec_enc_u32(x: u32) -> Seq<u8> {
    seq![
        (x & 0xff) as u8,
        ((x >> 8) & 0xff) as u8,
        ((x >> 16) & 0xff) as u8,
        ((x >> 24) & 0xff) as u8,
    ]
}

pub open spec fn spec_enc_u64(x: u64) -> Seq<u8> {
    seq![
        (x & 0xff) as u8,
        ((x >> 8) & 0xff) as u8,
        ((x >> 16) & 0xff) as u8,
        ((x >> 24) & 0xff) as u8,
        ((x >> 32) & 0xff) as u8,
        ((x >> 40) & 0xff) as u8,
        ((x >> 48) & 0xff) as u8,
        ((x >> 56) & 0xff) as u8,
    ]
}

/// Value of a 2-byte little-endian sequence.
pub open spec fn spec_dec_u16(s: Seq<u8>) -> u16
    recommends
        s.len() == 2,
{
    (s[0] as u16) | ((s[1] as u16) << 8)
}

/// Value of a 4-byte little-endian sequence.
pub open spec fn spec_dec_u32(s: Seq<u8>) -> u32
    recommends
        s.len() == 4,
{
    (s[0] as u32) | ((s[1] as u32) << 8) | ((s[2] as u32) << 16) | ((s[3] as u32) << 24)
}

/// Value of an 8-byte little-endian sequence.
pub open spec fn spec_dec_u64(s: Seq<u8>) -> u64
    recommends
        s.len() == 8,
{
    (s[0] as u64) | ((s[1] as u64) << 8) | ((s[2] as u64) << 16) | ((s[3] as u64) << 24)
        | ((s[4] as u64) << 32) | ((s[5] as u64) << 40) | ((s[6] as u64) << 48) | (
    (s[7] as u64) << 56)
}

pub proof fn lemma_dec_enc_u16(x: u16)
    ensures
        spec_dec_u16(spec_enc_u16(x)) == x,
{
    assert(((x & 0xff) as u8 as u16) | ((((x >> 8) & 0xff) as u8 as u16) << 8) == x)
        by (bit_vector);
}

pub proof fn lemma_dec_enc_u32(x: u32)
    ensures
        spec_dec_u32(spec_enc_u32(x)) == x,
{
    assert(((x & 0xff) as u8 as u32) | ((((x >> 8) & 0xff) as u8 as u32) << 8) | ((((x >> 16)
        & 0xff) as u8 as u32) << 16) | ((((x >> 24) & 0xff) as u8 as u32) << 24) == x)
        by (bit_vector);
}

pub proof fn lemma_dec_enc_u64(x: u64)
    ensures
        spec_dec_u64(spec_enc_u64(x)) == x,
{
    assert(((x & 0xff) as u8 as u64) | ((((x >> 8) & 0xff) as u8 as u64) << 8) | ((((x >> 16)
        & 0xff) as u8 as u64) << 16) | ((((x >> 24) & 0xff) as u8 as u64) << 24) | ((((x >> 32)
        & 0xff) as u8 as u64) << 32) | ((((x >> 40) & 0xff) as u8 as u64) << 40) | ((((x >> 48)
        & 0xff) as u8 as u64) << 48) | ((((x >> 56) & 0xff) as u8 as u64) << 56) == x)
        by (bit_vector);
}

/// Append the 2-byte little-endian encoding of `x`.
fn enc_push_u16(out: &mut Vec<u8>, x: u16)
    ensures
        final(out)@ == old(out)@ + spec_enc_u16(x),
{
    proof {
        assert((x & 0xff) < 256 && ((x >> 8) & 0xff) < 256) by (bit_vector);
    }
    out.push((x & 0xff) as u8);
    out.push(((x >> 8) & 0xff) as u8);
    assert(out@ =~= old(out)@ + spec_enc_u16(x));
}

/// Append the 4-byte little-endian encoding of `x`.
fn enc_push_u32(out: &mut Vec<u8>, x: u32)
    ensures
        final(out)@ == old(out)@ + spec_enc_u32(x),
{
    proof {
        assert((x & 0xff) < 256 && ((x >> 8) & 0xff) < 256 && ((x >> 16) & 0xff) < 256 && ((x
            >> 24) & 0xff) < 256) by (bit_vector);
    }
    out.push((x & 0xff) as u8);
    out.push(((x >> 8) & 0xff) as u8);
    out.push(((x >> 16) & 0xff) as u8);
    out.push(((x >> 24) & 0xff) as u8);
    assert(out@ =~= old(out)@ + spec_enc_u32(x));
}

/// Append the 8-byte little-endian encoding of `x`.
fn enc_push_u64(out: &mut Vec<u8>, x: u64)
    ensures
        final(out)@ == old(out)@ + spec_enc_u64(x),
{
    proof {
        assert((x & 0xff) < 256 && ((x >> 8) & 0xff) < 256 && ((x >> 16) & 0xff) < 256 && ((x
            >> 24) & 0xff) < 256 && ((x >> 32) & 0xff) < 256 && ((x >> 40) & 0xff) < 256 && ((x
            >> 48) & 0xff) < 256 && ((x >> 56) & 0xff) < 256) by (bit_vector);
    }
    out.push((x & 0xff) as u8);
    out.push(((x >> 8) & 0xff) as u8);
    out.push(((x >> 16) & 0xff) as u8);
    out.push(((x >> 24) & 0xff) as u8);
    out.push(((x >> 32) & 0xff) as u8);
    out.push(((x >> 40) & 0xff) as u8);
    out.push(((x >> 48) & 0xff) as u8);
    out.push(((x >> 56) & 0xff) as u8);
    assert(out@ =~= old(out)@ + spec_enc_u64(x));
}

/// Read a `u16` at `pos`; `None` when fewer than 2 bytes remain.
pub open spec fn spec_dec_u16_at(b: Seq<u8>, pos: int) -> Option<(u16, int)> {
    if 0 <= pos && pos + 2 <= b.len() {
        Some((spec_dec_u16(b.subrange(pos, pos + 2)), pos + 2))
    } else {
        None
    }
}

/// Read a `u32` at `pos`; `None` when fewer than 4 bytes remain.
pub open spec fn spec_dec_u32_at(b: Seq<u8>, pos: int) -> Option<(u32, int)> {
    if 0 <= pos && pos + 4 <= b.len() {
        Some((spec_dec_u32(b.subrange(pos, pos + 4)), pos + 4))
    } else {
        None
    }
}

/// Read a `u64` at `pos`; `None` when fewer than 8 bytes remain.
pub open spec fn spec_dec_u64_at(b: Seq<u8>, pos: int) -> Option<(u64, int)> {
    if 0 <= pos && pos + 8 <= b.len() {
        Some((spec_dec_u64(b.subrange(pos, pos + 8)), pos + 8))
    } else {
        None
    }
}

fn read_u16(b: &[u8], pos: usize) -> (r: Option<(u16, usize)>)
    ensures
        match r {
            Some((x, p)) => spec_dec_u16_at(b@, pos as int) == Some((x, p as int)),
            None => spec_dec_u16_at(b@, pos as int) is None,
        },
{
    if pos > b.len() || b.len() - pos < 2 {
        return None;
    }
    let b0 = *vstd::slice::slice_index_get(b, pos);
    let b1 = *vstd::slice::slice_index_get(b, pos + 1);
    let x = (b0 as u16) | ((b1 as u16) << 8);
    proof {
        let s = b@.subrange(pos as int, pos as int + 2);
        assert(s[0] == b@[pos as int] && s[1] == b@[pos as int + 1]);
    }
    Some((x, pos + 2))
}

fn read_u32(b: &[u8], pos: usize) -> (r: Option<(u32, usize)>)
    ensures
        match r {
            Some((x, p)) => spec_dec_u32_at(b@, pos as int) == Some((x, p as int)),
            None => spec_dec_u32_at(b@, pos as int) is None,
        },
{
    if pos > b.len() || b.len() - pos < 4 {
        return None;
    }
    let b0 = *vstd::slice::slice_index_get(b, pos);
    let b1 = *vstd::slice::slice_index_get(b, pos + 1);
    let b2 = *vstd::slice::slice_index_get(b, pos + 2);
    let b3 = *vstd::slice::slice_index_get(b, pos + 3);
    let x = (b0 as u32) | ((b1 as u32) << 8) | ((b2 as u32) << 16) | ((b3 as u32) << 24);
    proof {
        let s = b@.subrange(pos as int, pos as int + 4);
        assert(s[0] == b@[pos as int] && s[1] == b@[pos as int + 1] && s[2] == b@[pos as int + 2]
            && s[3] == b@[pos as int + 3]);
    }
    Some((x, pos + 4))
}

fn read_u64(b: &[u8], pos: usize) -> (r: Option<(u64, usize)>)
    ensures
        match r {
            Some((x, p)) => spec_dec_u64_at(b@, pos as int) == Some((x, p as int)),
            None => spec_dec_u64_at(b@, pos as int) is None,
        },
{
    if pos > b.len() || b.len() - pos < 8 {
        return None;
    }
    let b0 = *vstd::slice::slice_index_get(b, pos);
    let b1 = *vstd::slice::slice_index_get(b, pos + 1);
    let b2 = *vstd::slice::slice_index_get(b, pos + 2);
    let b3 = *vstd::slice::slice_index_get(b, pos + 3);
    let b4 = *vstd::slice::slice_index_get(b, pos + 4);
    let b5 = *vstd::slice::slice_index_get(b, pos + 5);
    let b6 = *vstd::slice::slice_index_get(b, pos + 6);
    let b7 = *vstd::slice::slice_index_get(b, pos + 7);
    let x = (b0 as u64) | ((b1 as u64) << 8) | ((b2 as u64) << 16) | ((b3 as u64) << 24) | ((
    b4 as u64) << 32) | ((b5 as u64) << 40) | ((b6 as u64) << 48) | ((b7 as u64) << 56);
    proof {
        let s = b@.subrange(pos as int, pos as int + 8);
        assert(s[0] == b@[pos as int] && s[1] == b@[pos as int + 1] && s[2] == b@[pos as int + 2]
            && s[3] == b@[pos as int + 3] && s[4] == b@[pos as int + 4] && s[5] == b@[pos as int
            + 5] && s[6] == b@[pos as int + 6] && s[7] == b@[pos as int + 7]);
    }
    Some((x, pos + 8))
}

// ---------------------------------------------------------------------------
// Strings: u64 UTF-8 byte length, then the UTF-8 bytes
// ---------------------------------------------------------------------------

/// A string is encodable when its UTF-8 byte length fits the length prefix.
pub open spec fn str_wf(s: Seq<char>) -> bool {
    encode_utf8(s).len() <= u64::MAX
}

pub open spec fn spec_enc_str(s: Seq<char>) -> Seq<u8> {
    spec_enc_u64(encode_utf8(s).len() as u64) + encode_utf8(s)
}

/// Read a length-prefixed UTF-8 string at `pos`.
pub open spec fn spec_dec_str_at(b: Seq<u8>, pos: int) -> Option<(Seq<char>, int)> {
    match spec_dec_u64_at(b, pos) {
        None => None,
        Some((n, p)) => if p + n <= b.len() && valid_utf8(b.subrange(p, p + n)) {
            Some((decode_utf8(b.subrange(p, p + n)), p + n))
        } else {
            None
        },
    }
}

/// Relies on str::from_utf8: it returns `Ok` exactly when the bytes are valid
/// UTF-8, and then the returned slice is backed by those very bytes.
#[verifier::external_body]
fn utf8_to_str(v: &[u8]) -> (r: Option<&str>)
    ensures
        match r {
            Some(s) => valid_utf8(v@) && s.spec_bytes() == v@,
            None => !valid_utf8(v@),
        },
{
    core::str::from_utf8(v).ok()
}

/// Append the encoding of a string.
fn enc_push_str(out: &mut Vec<u8>, s: &str)
    ensures
        final(out)@ == old(out)@ + spec_enc_str(s@),
        str_wf(s@),
{
    let bytes = s.as_bytes();
    enc_push_u64(out, bytes.len() as u64);
    out.extend_from_slice(bytes);
    assert(out@ =~= old(out)@ + spec_enc_str(s@));
}

/// Read a string at `pos`, following the spec-level decoder exactly.
fn read_str(b: &[u8], pos: usize) -> (r: Option<(String, usize)>)
    ensures
        match r {
            Some((s, p)) => spec_dec_str_at(b@, pos as int) == Some((s@, p as int)),
            None => spec_dec_str_at(b@, pos as int) is None,
        },
{
    match read_u64(b, pos) {
        None => None,
        Some((n, p)) => {
            if n > (b.len() - p) as u64 {
                return None;
            }
            let n_us = n as usize;
            let payload = vstd::slice::slice_subrange(b, p, p + n_us);
            match utf8_to_str(payload) {
                None => None,
                Some(s) => {
                    proof {
                        encode_utf8_decode_utf8(s@);
                    }
                    Some((s.to_owned(), p + n_us))
                },
            }
        },
    }
}

// ---------------------------------------------------------------------------
// Lists of strings: u64 count, then the strings
// ---------------------------------------------------------------------------

pub open spec fn strs_wf(ts: Seq<Seq<char>>) -> bool {
    &&& ts.len() <= u64::MAX
    &&& forall|i: int| 0 <= i < ts.len() ==> str_wf(#[trigger] ts[i])
}

pub open spec fn spec_enc_strs(ts: Seq<Seq<char>>) -> Seq<u8>
    decreases ts.len(),
{
    if ts.len() == 0 {
        Seq::empty()
    } else {
        spec_enc_str(ts[0]) + spec_enc_strs(ts.drop_first())
    }
}

/// Read exactly `n` strings starting at `pos`.
pub open spec fn spec_dec_strs_at(b: Seq<u8>, pos: int, n: nat) -> Option<(Seq<Seq<char>>, int)>
    decreases n,
{
    if n == 0 {
        Some((Seq::empty(), pos))
    } else {
        match spec_dec_str_at(b, pos) {
            None => None,
            Some((s, p)) => match spec_dec_strs_at(b, p, (n - 1) as nat) {
                None => None,
                Some((rest, q)) => Some((seq![s] + rest, q)),
            },
        }
    }
}

/// Read a count-prefixed list of strings at `pos`.
pub open spec fn spec_dec_str_list_at(b: Seq<u8>, pos: int) -> Option<(Seq<Seq<char>>, int)> {
    match spec_dec_u64_at(b, pos) {
        None => None,
        Some((n, p)) => spec_dec_strs_at(b, p, n as nat),
    }
}

/// Append the count-prefixed encoding of a list of strings.
fn enc_push_str_list(out: &mut Vec<u8>, ts: &Vec<String>)
    ensures
        final(out)@ == old(out)@ + spec_enc_u64(ts@.len() as u64) + spec_enc_strs(ts.deep_view()),
        strs_wf(ts.deep_view()),
{
    let ghost dv = ts.deep_view();
    enc_push_u64(out, ts.len() as u64);
    let ghost base = out@;
    proof {
        assert(dv.skip(0) =~= dv);
    }
    let mut i: usize = 0;
    while i < ts.len()
        invariant
            i <= ts@.len(),
            dv.len() == ts@.len(),
            dv == ts.deep_view(),
            out@ + spec_enc_strs(dv.skip(i as int)) == base + spec_enc_strs(dv),
            forall|j: int| 0 <= j < i ==> str_wf(#[trigger] dv[j]),
        decreases ts@.len() - i,
    {
        let ghost pre = out@;
        enc_push_str(out, ts[i].as_str());
        proof {
            assert(dv[i as int] == ts@[i as int]@);
            assert(dv.skip(i as int)[0] == dv[i as int]);
            assert(dv.skip(i as int).drop_first() =~= dv.skip(i as int + 1));
            assert(spec_enc_strs(dv.skip(i as int)) == spec_enc_str(dv[i as int])
                + spec_enc_strs(dv.skip(i as int + 1)));
            assert(out@ + spec_enc_strs(dv.skip(i as int + 1)) =~= pre + spec_enc_strs(
                dv.skip(i as int),
            ));
        }
        i = i + 1;
    }
    proof {
        assert(dv.skip(ts@.len() as int) =~= Seq::<Seq<char>>::empty());
        assert(out@ + spec_enc_strs(dv.skip(ts@.len() as int)) =~= out@);
    }
}

/// Read a count-prefixed list of strings at `pos`, following the spec-level
/// decoder exactly.
fn read_str_list(b: &[u8], pos: usize) -> (r: Option<(Vec<String>, usize)>)
    ensures
        match r {
            Some((ts, p)) => spec_dec_str_list_at(b@, pos as int) == Some((ts.deep_view(), p as int)),
            None => spec_dec_str_list_at(b@, pos as int) is None,
        },
{
    match read_u64(b, pos) {
        None => None,
        Some((n, p0)) => {
            let mut acc: Vec<String> = Vec::new();
            let mut p = p0;
            let mut i: u64 = 0;
            proof {
                if spec_dec_strs_at(b@, p0 as int, n as nat) is Some {
                    let (rest, q) = spec_dec_strs_at(b@, p0 as int, n as nat).unwrap();
                    assert(acc.deep_view() + rest =~= rest);
                }
            }
            loop
                invariant
                    i <= n,
                    acc.deep_view().len() == i as int,
                    spec_dec_str_list_at(b@, pos as int) == spec_dec_strs_at(
                        b@,
                        p0 as int,
                        n as nat,
                    ),
                    spec_dec_strs_at(b@, p0 as int, n as nat) == (match spec_dec_strs_at(
                        b@,
                        p as int,
                        (n - i) as nat,
                    ) {
                        None => None::<(Seq<Seq<char>>, int)>,
                        Some((rest, q)) => Some((acc.deep_view() + rest, q)),
                    }),
                decreases n - i,
            {
                if i == n {
                    proof {
                        assert(spec_dec_strs_at(b@, p as int, 0) == Some((
                            Seq::<Seq<char>>::empty(),
                            p as int,
                        )));
                        assert(acc.deep_view() + Seq::<Seq<char>>::empty() =~= acc.deep_view());
                    }
                    return Some((acc, p));
                }
                match read_str(b, p) {
                    None => {
                        proof {
                            assert(spec_dec_strs_at(b@, p as int, (n - i) as nat) is None);
                        }
                        return None;
                    },
                    Some((s, p1)) => {
                        let ghost old_acc = acc.deep_view();
                        acc.push(s);
                        proof {
                            assert(acc.deep_view() =~= old_acc.push(s@));
                            let rest_n = (n - i) as nat;
                            assert(spec_dec_strs_at(b@, p as int, rest_n) == (
                            match spec_dec_strs_at(b@, p1 as int, (rest_n - 1) as nat) {
                                None => None::<(Seq<Seq<char>>, int)>,
                                Some((rest, q)) => Some((seq![s@] + rest, q)),
                            }));
                            if spec_dec_strs_at(b@, p1 as int, (n - i - 1) as nat) is Some {
                                let (rest, q) = spec_dec_strs_at(
                                    b@,
                                    p1 as int,
                                    (n - i - 1) as nat,
                                ).unwrap();
                                assert(old_acc + (seq![s@] + rest) =~= acc.deep_view() + rest);
                            }
                        }
                        p = p1;
                        i = i + 1;
                    },
                }
            }
        },
    }
}

// ---------------------------------------------------------------------------
// Embedding vectors: u64 count, then 4-byte components
// ---------------------------------------------------------------------------

pub open spec fn spec_enc_u32s(vs: Seq<u32>) -> Seq<u8>
    decreases vs.len(),
{
    if vs.len() == 0 {
        Seq::empty()
    } else {
        spec_enc_u32(vs[0]) + spec_enc_u32s(vs.drop_first())
    }
}

pub open spec fn spec_dec_u32s_at(b: Seq<u8>, pos: int, n: nat) -> Option<(Seq<u32>, int)>
    decreases n,
{
    if n == 0 {
        Some((Seq::empty(), pos))
    } else {
        match spec_dec_u32_at(b, pos) {
            None => None,
            Some((x, p)) => match spec_dec_u32s_at(b, p, (n - 1) as nat) {
                None => None,
                Some((rest, q)) => Some((seq![x] + rest, q)),
            },
        }
    }
}

/// Read a count-prefixed vector of 4-byte components at `pos`.
pub open spec fn spec_dec_u32_list_at(b: Seq<u8>, pos: int) -> Option<(Seq<u32>, int)> {
    match spec_dec_u64_at(b, pos) {
        None => None,
        Some((n, p)) => spec_dec_u32s_at(b, p, n as nat),
    }
}

/// Append the count-prefixed encoding of a vector of components.
fn enc_push_u32_list(out: &mut Vec<u8>, vs: &Vec<u32>)
    ensures
        final(out)@ == old(out)@ + spec_enc_u64(vs@.len() as u64) + spec_enc_u32s(vs@),
{
    let ghost dv = vs@;
    enc_push_u64(out, vs.len() as u64);
    let ghost base = out@;
    proof {
        assert(dv.skip(0) =~= dv);
    }
    let mut i: usize = 0;
    while i < vs.len()
        invariant
            i <= vs@.len(),
            dv == vs@,
            out@ + spec_enc_u32s(dv.skip(i as int)) == base + spec_enc_u32s(dv),
        decreases vs@.len() - i,
    {
        let ghost pre = out@;
        enc_push_u32(out, vs[i]);
        proof {
            assert(dv.skip(i as int)[0] == dv[i as int]);
            assert(dv.skip(i as int).drop_first() =~= dv.skip(i as int + 1));
            assert(spec_enc_u32s(dv.skip(i as int)) == spec_enc_u32(dv[i as int])
                + spec_enc_u32s(dv.skip(i as int + 1)));
            assert(out@ + spec_enc_u32s(dv.skip(i as int + 1)) =~= pre + spec_enc_u32s(
                dv.skip(i as int),
            ));
        }
        i = i + 1;
    }
    proof {
        assert(dv.skip(vs@.len() as int) =~= Seq::<u32>::empty());
        assert(out@ + spec_enc_u32s(dv.skip(vs@.len() as int)) =~= out@);
    }
}

/// Read a count-prefixed vector of components at `pos`, following the
/// spec-level decoder exactly.
fn read_u32_list(b: &[u8], pos: usize) -> (r: Option<(Vec<u32>, usize)>)
    ensures
        match r {
            Some((vs, p)) => spec_dec_u32_list_at(b@, pos as int) == Some((vs@, p as int)),
            None => spec_dec_u32_list_at(b@, pos as int) is None,
        },
{
    match read_u64(b, pos) {
        None => None,
        Some((n, p0)) => {
            let mut acc: Vec<u32> = Vec::new();
            let mut p = p0;
            let mut i: u64 = 0;
            proof {
                if spec_dec_u32s_at(b@, p0 as int, n as nat) is Some {
                    let (rest, q) = spec_dec_u32s_at(b@, p0 as int, n as nat).unwrap();
                    assert(acc@ + rest =~= rest);
                }
            }
            loop
                invariant
                    i <= n,
                    acc@.len() == i as int,
                    spec_dec_u32_list_at(b@, pos as int) == spec_dec_u32s_at(
                        b@,
                        p0 as int,
                        n as nat,
                    ),
                    spec_dec_u32s_at(b@, p0 as int, n as nat) == (match spec_dec_u32s_at(
                        b@,
                        p as int,
                        (n - i) as nat,
                    ) {
                        None => None::<(Seq<u32>, int)>,
                        Some((rest, q)) => Some((acc@ + rest, q)),
                    }),
                decreases n - i,
            {
                if i == n {
                    proof {
                        assert(spec_dec_u32s_at(b@, p as int, 0) == Some((
                            Seq::<u32>::empty(),
                            p as int,
                        )));
                        assert(acc@ + Seq::<u32>::empty() =~= acc@);
                    }
                    return Some((acc, p));
                }
                match read_u32(b, p) {
                    None => {
                        proof {
                            assert(spec_dec_u32s_at(b@, p as int, (n - i) as nat) is None);
                        }
                        return None;
                    },
                    Some((x, p1)) => {
                        let ghost old_acc = acc@;
                        acc.push(x);
                        proof {
                            let rest_n = (n - i) as nat;
                            assert(spec_dec_u32s_at(b@, p as int, rest_n) == (
                            match spec_dec_u32s_at(b@, p1 as int, (rest_n - 1) as nat) {
                                None => None::<(Seq<u32>, int)>,
                                Some((rest, q)) => Some((seq![x] + rest, q)),
                            }));
                            if spec_dec_u32s_at(b@, p1 as int, (n - i - 1) as nat) is Some {
                                let (rest, q) = spec_dec_u32s_at(
                                    b@,
                                    p1 as int,
                                    (n - i - 1) as nat,
                                ).unwrap();
                                assert(old_acc + (seq![x] + rest) =~= acc@ + rest);
                            }
                        }
                        p = p1;
                        i = i + 1;
                    },
                }
            }
        },
    }
}

// ---------------------------------------------------------------------------
// Lists of vectors: u64 count, then the vectors
// ---------------------------------------------------------------------------

pub open spec fn spec_enc_vecs(vss: Seq<Seq<u32>>) -> Seq<u8>
    decreases vss.len(),
{
    if vss.len() == 0 {
        Seq::empty()
    } else {
        (spec_enc_u64(vss[0].len() as u64) + spec_enc_u32s(vss[0])) + spec_enc_vecs(
            vss.drop_first(),
        )
    }
}

pub open spec fn spec_dec_vecs_at(b: Seq<u8>, pos: int, n: nat) -> Option<(Seq<Seq<u32>>, int)>
    decreases n,
{
    if n == 0 {
        Some((Seq::empty(), pos))
    } else {
        match spec_dec_u32_list_at(b, pos) {
            None => None,
            Some((v, p)) => match spec_dec_vecs_at(b, p, (n - 1) as nat) {
                None => None,
                Some((rest, q)) => Some((seq![v] + rest, q)),
            },
        }
    }
}

/// Read a count-prefixed list of vectors at `pos`.
pub open spec fn spec_dec_vec_list_at(b: Seq<u8>, pos: int) -> Option<(Seq<Seq<u32>>, int)> {
    match spec_dec_u64_at(b, pos) {
        None => None,
        Some((n, p)) => spec_dec_vecs_at(b, p, n as nat),
    }
}

pub open spec fn vecs_wf(vss: Seq<Seq<u32>>) -> bool {
    &&& vss.len() <= u64::MAX
    &&& forall|i: int| 0 <= i < vss.len() ==> (#[trigger] vss[i]).len() <= u64::MAX
}

/// Append the count-prefixed encoding of a list of vectors.
fn enc_push_vec_list(out: &mut Vec<u8>, vss: &Vec<Vec<u32>>)
    ensures
        final(out)@ == old(out)@ + spec_enc_u64(vss@.len() as u64) + spec_enc_vecs(
            vss.deep_view(),
        ),
        vecs_wf(vss.deep_view()),
{
    let ghost dv = vss.deep_view();
    enc_push_u64(out, vss.len() as u64);
    let ghost base = out@;
    proof {
        assert(dv.skip(0) =~= dv);
    }
    let mut i: usize = 0;
    while i < vss.len()
        invariant
            i <= vss@.len(),
            dv.len() == vss@.len(),
            dv == vss.deep_view(),
            out@ + spec_enc_vecs(dv.skip(i as int)) == base + spec_enc_vecs(dv),
            forall|j: int| 0 <= j < i ==> (#[trigger] dv[j]).len() <= u64::MAX,
        decreases vss@.len() - i,
    {
        let ghost pre = out@;
        let inner_len = vss[i].len();
        enc_push_u32_list(out, &vss[i]);
        proof {
            assert(dv[i as int] =~= vss@[i as int]@);
            assert(inner_len == dv[i as int].len());
            assert(dv[i as int].len() <= u64::MAX);
            assert(dv.skip(i as int)[0] == dv[i as int]);
            assert(dv.skip(i as int).drop_first() =~= dv.skip(i as int + 1));
            assert(spec_enc_vecs(dv.skip(i as int)) == (spec_enc_u64(dv[i as int].len() as u64)
                + spec_enc_u32s(dv[i as int])) + spec_enc_vecs(dv.skip(i as int + 1)));
            assert(out@ + spec_enc_vecs(dv.skip(i as int + 1)) =~= pre + spec_enc_vecs(
                dv.skip(i as int),
            ));
        }
        i = i + 1;
    }
    proof {
        assert(dv.skip(vss@.len() as int) =~= Seq::<Seq<u32>>::empty());
        assert(out@ + spec_enc_vecs(dv.skip(vss@.len() as int)) =~= out@);
    }
}

/// Read a count-prefixed list of vectors at `pos`, following the spec-level
/// decoder exactly.
fn read_vec_list(b: &[u8], pos: usize) -> (r: Option<(Vec<Vec<u32>>, usize)>)
    ensures
        match r {
            Some((vss, p)) => spec_dec_vec_list_at(b@, pos as int) == Some((
                vss.deep_view(),
                p as int,
            )),
            None => spec_dec_vec_list_at(b@, pos as int) is None,
        },
{
    match read_u64(b, pos) {
        None => None,
        Some((n, p0)) => {
            let mut acc: Vec<Vec<u32>> = Vec::new();
            let mut p = p0;
            let mut i: u64 = 0;
            proof {
                if spec_dec_vecs_at(b@, p0 as int, n as nat) is Some {
                    let (rest, q) = spec_dec_vecs_at(b@, p0 as int, n as nat).unwrap();
                    assert(acc.deep_view() + rest =~= rest);
                }
            }
            loop
                invariant
                    i <= n,
                    acc.deep_view().len() == i as int,
                    spec_dec_vec_list_at(b@, pos as int) == spec_dec_vecs_at(
                        b@,
                        p0 as int,
                        n as nat,
                    ),
                    spec_dec_vecs_at(b@, p0 as int, n as nat) == (match spec_dec_vecs_at(
                        b@,
                        p as int,
                        (n - i) as nat,
                    ) {
                        None => None::<(Seq<Seq<u32>>, int)>,
                        Some((rest, q)) => Some((acc.deep_view() + rest, q)),
                    }),
                decreases n - i,
            {
                if i == n {
                    proof {
                        assert(spec_dec_vecs_at(b@, p as int, 0) == Some((
                            Seq::<Seq<u32>>::empty(),
                            p as int,
                        )));
                        assert(acc.deep_view() + Seq::<Seq<u32>>::empty() =~= acc.deep_view());
                    }
                    return Some((acc, p));
                }
                match read_u32_list(b, p) {
                    None => {
                        proof {
                            assert(spec_dec_vecs_at(b@, p as int, (n - i) as nat) is None);
                        }
                        return None;
                    },
                    Some((v, p1)) => {
                        let ghost old_acc = acc.deep_view();
                        acc.push(v);
                        proof {
                            assert(acc.deep_view() =~~= old_acc.push(v@));
                            let rest_n = (n - i) as nat;
                            assert(spec_dec_vecs_at(b@, p as int, rest_n) == (
                            match spec_dec_vecs_at(b@, p1 as int, (rest_n - 1) as nat) {
                                None => None::<(Seq<Seq<u32>>, int)>,
                                Some((rest, q)) => Some((seq![v@] + rest, q)),
                            }));
                            if spec_dec_vecs_at(b@, p1 as int, (n - i - 1) as nat) is Some {
                                let (rest, q) = spec_dec_vecs_at(
                                    b@,
                                    p1 as int,
                                    (n - i - 1) as nat,
                                ).unwrap();
                                assert(old_acc + (seq![v@] + rest) =~= acc.deep_view() + rest);
                            }
                        }
                        p = p1;
                        i = i + 1;
                    },
                }
            }
        },
    }
}

// ---------------------------------------------------------------------------
// Requests
// ---------------------------------------------------------------------------

/// Variant tag of a chat completion request or result.
pub const TAG_CHAT: u32 = 0;

/// Variant tag of a text completion request or result.
pub const TAG_TEXT: u32 = 1;

/// Variant tag of an embedding request or result.
pub const TAG_EMBEDDING: u32 = 2;

/// A request is encodable when its strings and counts fit their prefixes.
pub open spec fn request_wf(v: RequestView) -> bool {
    match v {
        RequestView::ChatCompletion(c) => str_wf(c.model_name) && str_wf(c.system) && str_wf(
            c.prompt,
        ),
        RequestView::TextCompletion(t) => str_wf(t.prompt),
        RequestView::Embedding(e) => strs_wf(e.texts),
    }
}

pub open spec fn spec_enc_chat_req_fields(c: ChatRequestView) -> Seq<u8> {
    spec_enc_str(c.model_name) + spec_enc_str(c.system) + spec_enc_str(c.prompt) + spec_enc_u16(
        c.completion_token_limit,
    )
}

pub open spec fn spec_enc_text_req_fields(t: TextRequestView) -> Seq<u8> {
    spec_enc_str(t.prompt) + spec_enc_u16(t.completion_token_limit)
}

pub open spec fn spec_enc_embedding_req_fields(e: EmbeddingRequestView) -> Seq<u8> {
    spec_enc_u64(e.texts.len() as u64) + spec_enc_strs(e.texts)
}

/// The canonical byte encoding of a request.
pub open spec fn spec_enc_request(v: RequestView) -> Seq<u8> {
    match v {
        RequestView::ChatCompletion(c) => spec_enc_u32(TAG_CHAT) + spec_enc_chat_req_fields(c),
        RequestView::TextCompletion(t) => spec_enc_u32(TAG_TEXT) + spec_enc_text_req_fields(t),
        RequestView::Embedding(e) => spec_enc_u32(TAG_EMBEDDING) + spec_enc_embedding_req_fields(
            e,
        ),
    }
}

/// Read the fields of a chat request at `pos`.
pub open spec fn spec_dec_chat_req_fields_at(b: Seq<u8>, pos: int) -> Option<(
    ChatRequestView,
    int,
)> {
    match spec_dec_str_at(b, pos) {
        None => None,
        Some((model_name, p1)) => match spec_dec_str_at(b, p1) {
            None => None,
            Some((system, p2)) => match spec_dec_str_at(b, p2) {
                None => None,
                Some((prompt, p3)) => match spec_dec_u16_at(b, p3) {
                    None => None,
                    Some((limit, p4)) => Some(
                        (
                            ChatRequestView {
                                model_name,
                                system,
                                prompt,
                                completion_token_limit: limit,
                            },
                            p4,
                        ),
                    ),
                },
            },
        },
    }
}

/// Read the fields of a text request at `pos`.
pub open spec fn spec_dec_text_req_fields_at(b: Seq<u8>, pos: int) -> Option<(
    TextRequestView,
    int,
)> {
    match spec_dec_str_at(b, pos) {
        None => None,
        Some((prompt, p1)) => match spec_dec_u16_at(b, p1) {
            None => None,
            Some((limit, p2)) => Some(
                (TextRequestView { prompt, completion_token_limit: limit }, p2),
            ),
        },
    }
}

/// Read the fields of an embedding request at `pos`.
pub open spec fn spec_dec_embedding_req_fields_at(b: Seq<u8>, pos: int) -> Option<(
    EmbeddingRequestView,
    int,
)> {
    match spec_dec_str_list_at(b, pos) {
        None => None,
        Some((texts, p)) => Some((EmbeddingRequestView { texts }, p)),
    }
}

/// The decoder of a request: tag, fields, and nothing after them.
pub open spec fn spec_dec_request(b: Seq<u8>) -> Option<RequestView> {
    match spec_dec_u32_at(b, 0) {
        None => None,
        Some((tag, p)) => if tag == TAG_CHAT {
            match spec_dec_chat_req_fields_at(b, p) {
                None => None,
                Some((c, q)) => if q == b.len() {
                    Some(RequestView::ChatCompletion(c))
                } else {
                    None
                },
            }
        } else if tag == TAG_TEXT {
            match spec_dec_text_req_fields_at(b, p) {
                None => None,
                Some((t, q)) => if q == b.len() {
                    Some(RequestView::TextCompletion(t))
                } else {
                    None
                },
            }
        } else if tag == TAG_EMBEDDING {
            match spec_dec_embedding_req_fields_at(b, p) {
                None => None,
                Some((e, q)) => if q == b.len() {
                    Some(RequestView::Embedding(e))
                } else {
                    None
                },
            }
        } else {
            None
        },
    }
}

/// Encode a request into its canonical bytes.
pub fn encode_request(r: &OpenAIGPTRequest) -> (out: Vec<u8>)
    ensures
        out@ == spec_enc_request(r@),
        request_wf(r@),
{
    let mut out: Vec<u8> = Vec::new();
    match r {
        OpenAIGPTRequest::ChatCompletionRequest(c) => {
            enc_push_u32(&mut out, TAG_CHAT);
            enc_push_str(&mut out, c.model_name.as_str());
            enc_push_str(&mut out, c.system.as_str());
            enc_push_str(&mut out, c.prompt.as_str());
            enc_push_u16(&mut out, c.completion_token_limit);
            assert(out@ =~= spec_enc_request(r@));
        },
        OpenAIGPTRequest::TextCompletionRequest(t) => {
            enc_push_u32(&mut out, TAG_TEXT);
            enc_push_str(&mut out, t.prompt.as_str());
            enc_push_u16(&mut out, t.completion_token_limit);
            assert(out@ =~= spec_enc_request(r@));
        },
        OpenAIGPTRequest::EmbeddingRequest(e) => {
            enc_push_u32(&mut out, TAG_EMBEDDING);
            enc_push_str_list(&mut out, &e.texts);
            assert(out@ =~= spec_enc_request(r@));
        },
    }
    out
}

/// Decode a request from its bytes, following the spec-level decoder exactly.
/// `None` stands for a decode failure on malformed or truncated bytes.
pub fn decode_request(b: &[u8]) -> (r: Option<OpenAIGPTRequest>)
    ensures
        match r {
            Some(req) => spec_dec_request(b@) == Some(req@),
            None => spec_dec_request(b@) is None,
        },
{
    match read_u32(b, 0) {
        None => None,
        Some((tag, p)) => {
            if tag == TAG_CHAT {
                match read_str(b, p) {
                    None => None,
                    Some((model_name, p1)) => match read_str(b, p1) {
                        None => None,
                        Some((system, p2)) => match read_str(b, p2) {
                            None => None,
                            Some((prompt, p3)) => match read_u16(b, p3) {
                                None => None,
                                Some((limit, p4)) => {
                                    if p4 == b.len() {
                                        Some(
                                            OpenAIGPTRequest::ChatCompletionRequest(
                                                OpenAIGPTChatCompletionRequest {
                                                    model_name,
                                                    system,
                                                    prompt,
                                                    completion_token_limit: limit,
                                                },
                                            ),
                                        )
                                    } else {
                                        None
                                    }
                                },
                            },
                        },
                    },
                }
            } else if tag == TAG_TEXT {
                match read_str(b, p) {
                    None => None,
                    Some((prompt, p1)) => match read_u16(b, p1) {
                        None => None,
                        Some((limit, p2)) => {
                            if p2 == b.len() {
                                Some(
                                    OpenAIGPTRequest::TextCompletionRequest(
                                        OpenAIGPTTextCompletionRequest {
                                            prompt,
                                            completion_token_limit: limit,
                                        },
                                    ),
                                )
                            } else {
                                None
                            }
                        },
                    },
                }
            } else if tag == TAG_EMBEDDING {
                match read_str_list(b, p) {
                    None => None,
                    Some((texts, p1)) => {
                        if p1 == b.len() {
                            Some(
                                OpenAIGPTRequest::EmbeddingRequest(
                                    OpenAIGPTEmbeddingRequest { texts },
                                ),
                            )
                        } else {
                            None
                        }
                    },
                }
            } else {
                None
            }
        },
    }
}

// ---------------------------------------------------------------------------
// Results
// ---------------------------------------------------------------------------

/// A result is encodable when its strings and counts fit their prefixes.
pub open spec fn result_wf(v: ResultView) -> bool {
    match v {
        ResultView::ChatCompletion(c) => str_wf(c.result) && str_wf(c.request.model_name)
            && str_wf(c.request.system) && str_wf(c.request.prompt),
        ResultView::TextCompletion(t) => str_wf(t.result) && str_wf(t.request.prompt),
        ResultView::Embedding(e) => vecs_wf(e.result) && strs_wf(e.request.texts),
    }
}

/// The canonical byte encoding of a result.
pub open spec fn spec_enc_result(v: ResultView) -> Seq<u8> {
    match v {
        ResultView::ChatCompletion(c) => spec_enc_u32(TAG_CHAT) + spec_enc_str(c.result)
            + spec_enc_chat_req_fields(c.request),
        ResultView::TextCompletion(t) => spec_enc_u32(TAG_TEXT) + spec_enc_str(t.result)
            + spec_enc_text_req_fields(t.request),
        ResultView::Embedding(e) => spec_enc_u32(TAG_EMBEDDING) + (spec_enc_u64(
            e.result.len() as u64,
        ) + spec_enc_vecs(e.result)) + spec_enc_embedding_req_fields(e.request),
    }
}

/// The decoder of a result: tag, fields, and nothing after them.
pub open spec fn spec_dec_result(b: Seq<u8>) -> Option<ResultView> {
    match spec_dec_u32_at(b, 0) {
        None => None,
        Some((tag, p)) => if tag == TAG_CHAT {
            match spec_dec_str_at(b, p) {
                None => None,
                Some((result, p1)) => match spec_dec_chat_req_fields_at(b, p1) {
                    None => None,
                    Some((request, q)) => if q == b.len() {
                        Some(ResultView::ChatCompletion(ChatResultView { result, request }))
                    } else {
                        None
                    },
                },
            }
        } else if tag == TAG_TEXT {
            match spec_dec_str_at(b, p) {
                None => None,
                Some((result, p1)) => match spec_dec_text_req_fields_at(b, p1) {
                    None => None,
                    Some((request, q)) => if q == b.len() {
                        Some(ResultView::TextCompletion(TextResultView { result, request }))
                    } else {
                        None
                    },
                },
            }
        } else if tag == TAG_EMBEDDING {
            match spec_dec_vec_list_at(b, p) {
                None => None,
                Some((result, p1)) => match spec_dec_embedding_req_fields_at(b, p1) {
                    None => None,
                    Some((request, q)) => if q == b.len() {
                        Some(ResultView::Embedding(EmbeddingResultView { result, request }))
                    } else {
                        None
                    },
                },
            }
        } else {
            None
        },
    }
}

/// Encode a result into its canonical bytes.
pub fn encode_result(r: &OpenAIGPTResult) -> (out: Vec<u8>)
    ensures
        out@ == spec_enc_result(r@),
        result_wf(r@),
{
    let mut out: Vec<u8> = Vec::new();
    match r {
        OpenAIGPTResult::ChatCompletionResult(c) => {
            enc_push_u32(&mut out, TAG_CHAT);
            enc_push_str(&mut out, c.result.as_str());
            enc_push_str(&mut out, c.request.model_name.as_str());
            enc_push_str(&mut out, c.request.system.as_str());
            enc_push_str(&mut out, c.request.prompt.as_str());
            enc_push_u16(&mut out, c.request.completion_token_limit);
            assert(out@ =~= spec_enc_result(r@));
        },
        OpenAIGPTResult::TextCompletionResult(t) => {
            enc_push_u32(&mut out, TAG_TEXT);
            enc_push_str(&mut out, t.result.as_str());
            enc_push_str(&mut out, t.request.prompt.as_str());
            enc_push_u16(&mut out, t.request.completion_token_limit);
            assert(out@ =~= spec_enc_result(r@));
        },
        OpenAIGPTResult::EmbeddingResult(e) => {
            enc_push_u32(&mut out, TAG_EMBEDDING);
            enc_push_vec_list(&mut out, &e.result);
            enc_push_str_list(&mut out, &e.request.texts);
            assert(out@ =~= spec_enc_result(r@));
        },
    }
    out
}

/// Decode a result from its bytes, following the spec-level decoder exactly.
/// `None` stands for a decode failure on malformed or truncated bytes.
pub fn decode_result(b: &[u8]) -> (r: Option<OpenAIGPTResult>)
    ensures
        match r {
            Some(res) => spec_dec_result(b@) == Some(res@),
            None => spec_dec_result(b@) is None,
        },
{
    match read_u32(b, 0) {
        None => None,
        Some((tag, p)) => {
            if tag == TAG_CHAT {
                match read_str(b, p) {
                    None => None,
                    Some((result, p0)) => match read_str(b, p0) {
                        None => None,
                        Some((model_name, p1)) => match read_str(b, p1) {
                            None => None,
                            Some((system, p2)) => match read_str(b, p2) {
                                None => None,
                                Some((prompt, p3)) => match read_u16(b, p3) {
                                    None => None,
                                    Some((limit, p4)) => {
                                        if p4 == b.len() {
                                            Some(
                                                OpenAIGPTResult::ChatCompletionResult(
                                                    OpenAIGPTChatCompletionResult {
                                                        result,
                                                        request: OpenAIGPTChatCompletionRequest {
                                                            model_name,
                                                            system,
                                                            prompt,
                                                            completion_token_limit: limit,
                                                        },
                                                    },
                                                ),
                                            )
                                        } else {
                                            None
                                        }
                                    },
                                },
                            },
                        },
                    },
                }
            } else if tag == TAG_TEXT {
                match read_str(b, p) {
                    None => None,
                    Some((result, p0)) => match read_str(b, p0) {
                        None => None,
                        Some((prompt, p1)) => match read_u16(b, p1) {
                            None => None,
                            Some((limit, p2)) => {
                                if p2 == b.len() {
                                    Some(
                                        OpenAIGPTResult::TextCompletionResult(
                                            OpenAIGPTTextCompletionResult {
                                                result,
                                                request: OpenAIGPTTextCompletionRequest {
                                                    prompt,
                                                    completion_token_limit: limit,
                                                },
                                            },
                                        ),
                                    )
                                } else {
                                    None
                                }
                            },
                        },
                    },
                }
            } else if tag == TAG_EMBEDDING {
                match read_vec_list(b, p) {
                    None => None,
                    Some((result, p0)) => match read_str_list(b, p0) {
                        None => None,
                        Some((texts, p1)) => {
                            if p1 == b.len() {
                                Some(
                                    OpenAIGPTResult::EmbeddingResult(
                                        OpenAIGPTEmbeddingResult {
                                            result,
                                            request: OpenAIGPTEmbeddingRequest { texts },
                                        },
                                    ),
                                )
                            } else {
                                None
                            }
                        },
                    },
                }
            } else {
                None
            }
        },
    }
}

// ---------------------------------------------------------------------------
// Round trip: decoding an encoding yields the encoded value
// ---------------------------------------------------------------------------

/// A planted concatenation splits into its planted halves.
proof fn lemma_subrange_split(b: Seq<u8>, pos: int, e1: Seq<u8>, e2: Seq<u8>)
    requires
        0 <= pos,
        pos + e1.len() + e2.len() <= b.len(),
        b.subrange(pos, pos + e1.len() + e2.len()) == e1 + e2,
    ensures
        b.subrange(pos, pos + e1.len() as int) == e1,
        b.subrange(pos + e1.len() as int, pos + e1.len() + e2.len()) == e2,
{
    let k1 = e1.len() as int;
    let k = k1 + e2.len() as int;
    let whole = b.subrange(pos, pos + k);
    assert forall|i: int| 0 <= i < k1 implies b.subrange(pos, pos + k1)[i] == e1[i] by {
        assert(whole[i] == (e1 + e2)[i]);
    };
    assert(b.subrange(pos, pos + k1) =~= e1);
    assert forall|i: int| 0 <= i < e2.len() implies b.subrange(pos + k1, pos + k)[i] == e2[i] by {
        assert(whole[k1 + i] == (e1 + e2)[k1 + i]);
    };
    assert(b.subrange(pos + k1, pos + k) =~= e2);
}

proof fn lemma_dec_enc_u16_at(b: Seq<u8>, pos: int, x: u16)
    requires
        0 <= pos,
        pos + 2 <= b.len(),
        b.subrange(pos, pos + 2) == spec_enc_u16(x),
    ensures
        spec_dec_u16_at(b, pos) == Some((x, pos + 2)),
{
    lemma_dec_enc_u16(x);
}

proof fn lemma_dec_enc_u32_at(b: Seq<u8>, pos: int, x: u32)
    requires
        0 <= pos,
        pos + 4 <= b.len(),
        b.subrange(pos, pos + 4) == spec_enc_u32(x),
    ensures
        spec_dec_u32_at(b, pos) == Some((x, pos + 4)),
{
    lemma_dec_enc_u32(x);
}

proof fn lemma_dec_enc_u64_at(b: Seq<u8>, pos: int, x: u64)
    requires
        0 <= pos,
        pos + 8 <= b.len(),
        b.subrange(pos, pos + 8) == spec_enc_u64(x),
    ensures
        spec_dec_u64_at(b, pos) == Some((x, pos + 8)),
{
    lemma_dec_enc_u64(x);
}

proof fn lemma_dec_enc_str_at(b: Seq<u8>, pos: int, s: Seq<char>)
    requires
        str_wf(s),
        0 <= pos,
        pos + spec_enc_str(s).len() <= b.len(),
        b.subrange(pos, pos + spec_enc_str(s).len() as int) == spec_enc_str(s),
    ensures
        spec_dec_str_at(b, pos) == Some((s, pos + spec_enc_str(s).len() as int)),
{
    let u = encode_utf8(s);
    let l = u.len() as u64;
    let eu = spec_enc_u64(l);
    assert(spec_enc_str(s).len() == 8 + u.len());
    lemma_subrange_split(b, pos, eu, u);
    lemma_dec_enc_u64_at(b, pos, l);
    encode_utf8_valid_utf8(s);
    encode_utf8_decode_utf8(s);
}

proof fn lemma_dec_enc_strs_at(b: Seq<u8>, pos: int, ts: Seq<Seq<char>>)
    requires
        forall|i: int| 0 <= i < ts.len() ==> str_wf(#[trigger] ts[i]),
        0 <= pos,
        pos + spec_enc_strs(ts).len() <= b.len(),
        b.subrange(pos, pos + spec_enc_strs(ts).len() as int) == spec_enc_strs(ts),
    ensures
        spec_dec_strs_at(b, pos, ts.len()) == Some((ts, pos + spec_enc_strs(ts).len() as int)),
    decreases ts.len(),
{
    if ts.len() == 0 {
        assert(spec_dec_strs_at(b, pos, 0) == Some((Seq::<Seq<char>>::empty(), pos)));
        assert(Seq::<Seq<char>>::empty() =~= ts);
    } else {
        let first = spec_enc_str(ts[0]);
        let rest = spec_enc_strs(ts.drop_first());
        assert(spec_enc_strs(ts) == first + rest);
        lemma_subrange_split(b, pos, first, rest);
        lemma_dec_enc_str_at(b, pos, ts[0]);
        let p = pos + first.len() as int;
        assert(forall|i: int|
            0 <= i < ts.drop_first().len() ==> str_wf(#[trigger] ts.drop_first()[i]));
        lemma_dec_enc_strs_at(b, p, ts.drop_first());
        assert(seq![ts[0]] + ts.drop_first() =~= ts);
    }
}

proof fn lemma_dec_enc_str_list_at(b: Seq<u8>, pos: int, ts: Seq<Seq<char>>)
    requires
        strs_wf(ts),
        0 <= pos,
        pos + 8 + spec_enc_strs(ts).len() <= b.len(),
        b.subrange(pos, pos + 8 + spec_enc_strs(ts).len() as int) == spec_enc_u64(
            ts.len() as u64,
        ) + spec_enc_strs(ts),
    ensures
        spec_dec_str_list_at(b, pos) == Some(
            (ts, pos + 8 + spec_enc_strs(ts).len() as int),
        ),
{
    lemma_subrange_split(b, pos, spec_enc_u64(ts.len() as u64), spec_enc_strs(ts));
    lemma_dec_enc_u64_at(b, pos, ts.len() as u64);
    lemma_dec_enc_strs_at(b, pos + 8, ts);
}

proof fn lemma_dec_enc_u32s_at(b: Seq<u8>, pos: int, vs: Seq<u32>)
    requires
        0 <= pos,
        pos + spec_enc_u32s(vs).len() <= b.len(),
        b.subrange(pos, pos + spec_enc_u32s(vs).len() as int) == spec_enc_u32s(vs),
    ensures
        spec_dec_u32s_at(b, pos, vs.len()) == Some((vs, pos + spec_enc_u32s(vs).len() as int)),
    decreases vs.len(),
{
    if vs.len() == 0 {
        assert(Seq::<u32>::empty() =~= vs);
    } else {
        let first = spec_enc_u32(vs[0]);
        let rest = spec_enc_u32s(vs.drop_first());
        assert(spec_enc_u32s(vs) == first + rest);
        lemma_subrange_split(b, pos, first, rest);
        lemma_dec_enc_u32_at(b, pos, vs[0]);
        lemma_dec_enc_u32s_at(b, pos + 4, vs.drop_first());
        assert(seq![vs[0]] + vs.drop_first() =~= vs);
    }
}

proof fn lemma_dec_enc_u32_list_at(b: Seq<u8>, pos: int, vs: Seq<u32>)
    requires
        vs.len() <= u64::MAX,
        0 <= pos,
        pos + 8 + spec_enc_u32s(vs).len() <= b.len(),
        b.subrange(pos, pos + 8 + spec_enc_u32s(vs).len() as int) == spec_enc_u64(
            vs.len() as u64,
        ) + spec_enc_u32s(vs),
    ensures
        spec_dec_u32_list_at(b, pos) == Some((vs, pos + 8 + spec_enc_u32s(vs).len() as int)),
{
    lemma_subrange_split(b, pos, spec_enc_u64(vs.len() as u64), spec_enc_u32s(vs));
    lemma_dec_enc_u64_at(b, pos, vs.len() as u64);
    lemma_dec_enc_u32s_at(b, pos + 8, vs);
}

proof fn lemma_dec_enc_vecs_at(b: Seq<u8>, pos: int, vss: Seq<Seq<u32>>)
    requires
        forall|i: int| 0 <= i < vss.len() ==> (#[trigger] vss[i]).len() <= u64::MAX,
        0 <= pos,
        pos + spec_enc_vecs(vss).len() <= b.len(),
        b.subrange(pos, pos + spec_enc_vecs(vss).len() as int) == spec_enc_vecs(vss),
    ensures
        spec_dec_vecs_at(b, pos, vss.len()) == Some(
            (vss, pos + spec_enc_vecs(vss).len() as int),
        ),
    decreases vss.len(),
{
    if vss.len() == 0 {
        assert(Seq::<Seq<u32>>::empty() =~= vss);
    } else {
        let first = spec_enc_u64(vss[0].len() as u64) + spec_enc_u32s(vss[0]);
        let rest = spec_enc_vecs(vss.drop_first());
        assert(spec_enc_vecs(vss) == first + rest);
        lemma_subrange_split(b, pos, first, rest);
        lemma_dec_enc_u32_list_at(b, pos, vss[0]);
        let p = pos + first.len() as int;
        assert(forall|i: int|
            0 <= i < vss.drop_first().len() ==> (#[trigger] vss.drop_first()[i]).len()
                <= u64::MAX);
        lemma_dec_enc_vecs_at(b, p, vss.drop_first());
        assert(seq![vss[0]] + vss.drop_first() =~= vss);
    }
}

proof fn lemma_dec_enc_vec_list_at(b: Seq<u8>, pos: int, vss: Seq<Seq<u32>>)
    requires
        vecs_wf(vss),
        0 <= pos,
        pos + 8 + spec_enc_vecs(vss).len() <= b.len(),
        b.subrange(pos, pos + 8 + spec_enc_vecs(vss).len() as int) == spec_enc_u64(
            vss.len() as u64,
        ) + spec_enc_vecs(vss),
    ensures
        spec_dec_vec_list_at(b, pos) == Some(
            (vss, pos + 8 + spec_enc_vecs(vss).len() as int),
        ),
{
    lemma_subrange_split(b, pos, spec_enc_u64(vss.len() as u64), spec_enc_vecs(vss));
    lemma_dec_enc_u64_at(b, pos, vss.len() as u64);
    lemma_dec_enc_vecs_at(b, pos + 8, vss);
}

proof fn lemma_dec_enc_chat_fields_at(b: Seq<u8>, pos: int, c: ChatRequestView)
    requires
        str_wf(c.model_name),
        str_wf(c.system),
        str_wf(c.prompt),
        0 <= pos,
        pos + spec_enc_chat_req_fields(c).len() <= b.len(),
        b.subrange(pos, pos + spec_enc_chat_req_fields(c).len() as int)
            == spec_enc_chat_req_fields(c),
    ensures
        spec_dec_chat_req_fields_at(b, pos) == Some(
            (c, pos + spec_enc_chat_req_fields(c).len() as int),
        ),
{
    let e1 = spec_enc_str(c.model_name);
    let e2 = spec_enc_str(c.system);
    let e3 = spec_enc_str(c.prompt);
    let e4 = spec_enc_u16(c.completion_token_limit);
    assert(spec_enc_chat_req_fields(c) == ((e1 + e2) + e3) + e4);
    lemma_subrange_split(b, pos, (e1 + e2) + e3, e4);
    lemma_subrange_split(b, pos, e1 + e2, e3);
    lemma_subrange_split(b, pos, e1, e2);
    let p1 = pos + e1.len() as int;
    let p2 = p1 + e2.len() as int;
    let p3 = p2 + e3.len() as int;
    lemma_dec_enc_str_at(b, pos, c.model_name);
    lemma_dec_enc_str_at(b, p1, c.system);
    lemma_dec_enc_str_at(b, p2, c.prompt);
    lemma_dec_enc_u16_at(b, p3, c.completion_token_limit);
}

proof fn lemma_dec_enc_text_fields_at(b: Seq<u8>, pos: int, t: TextRequestView)
    requires
        str_wf(t.prompt),
        0 <= pos,
        pos + spec_enc_text_req_fields(t).len() <= b.len(),
        b.subrange(pos, pos + spec_enc_text_req_fields(t).len() as int)
            == spec_enc_text_req_fields(t),
    ensures
        spec_dec_text_req_fields_at(b, pos) == Some(
            (t, pos + spec_enc_text_req_fields(t).len() as int),
        ),
{
    let e1 = spec_enc_str(t.prompt);
    let e2 = spec_enc_u16(t.completion_token_limit);
    assert(spec_enc_text_req_fields(t) == e1 + e2);
    lemma_subrange_split(b, pos, e1, e2);
    let p1 = pos + e1.len() as int;
    lemma_dec_enc_str_at(b, pos, t.prompt);
    lemma_dec_enc_u16_at(b, p1, t.completion_token_limit);
}

proof fn lemma_dec_enc_embedding_fields_at(b: Seq<u8>, pos: int, e: EmbeddingRequestView)
    requires
        strs_wf(e.texts),
        0 <= pos,
        pos + spec_enc_embedding_req_fields(e).len() <= b.len(),
        b.subrange(pos, pos + spec_enc_embedding_req_fields(e).len() as int)
            == spec_enc_embedding_req_fields(e),
    ensures
        spec_dec_embedding_req_fields_at(b, pos) == Some(
            (e, pos + spec_enc_embedding_req_fields(e).len() as int),
        ),
{
    lemma_dec_enc_str_list_at(b, pos, e.texts);
}

/// Round trip for requests: decoding the encoding of any well-formed request
/// yields exactly that request.
#[verifier::rlimit(100)]
pub proof fn lemma_request_round_trip(v: RequestView)
    requires
        request_wf(v),
    ensures
        spec_dec_request(spec_enc_request(v)) == Some(v),
{
    let b = spec_enc_request(v);
    assert(b.subrange(0, b.len() as int) =~= b);
    match v {
        RequestView::ChatCompletion(c) => {
            let fields = spec_enc_chat_req_fields(c);
            lemma_subrange_split(b, 0, spec_enc_u32(TAG_CHAT), fields);
            lemma_dec_enc_u32_at(b, 0, TAG_CHAT);
            lemma_dec_enc_chat_fields_at(b, 4, c);
        },
        RequestView::TextCompletion(t) => {
            let fields = spec_enc_text_req_fields(t);
            lemma_subrange_split(b, 0, spec_enc_u32(TAG_TEXT), fields);
            lemma_dec_enc_u32_at(b, 0, TAG_TEXT);
            lemma_dec_enc_text_fields_at(b, 4, t);
        },
        RequestView::Embedding(e) => {
            let fields = spec_enc_embedding_req_fields(e);
            lemma_subrange_split(b, 0, spec_enc_u32(TAG_EMBEDDING), fields);
            lemma_dec_enc_u32_at(b, 0, TAG_EMBEDDING);
            lemma_dec_enc_embedding_fields_at(b, 4, e);
        },
    }
}

proof fn lemma_chat_result_round_trip(c: ChatResultView)
    requires
        result_wf(ResultView::ChatCompletion(c)),
    ensures
        spec_dec_result(spec_enc_result(ResultView::ChatCompletion(c))) == Some(
            ResultView::ChatCompletion(c),
        ),
{
    let b = spec_enc_result(ResultView::ChatCompletion(c));
    assert(b.subrange(0, b.len() as int) =~= b);
    let e0 = spec_enc_str(c.result);
    let fields = spec_enc_chat_req_fields(c.request);
    assert(b =~= spec_enc_u32(TAG_CHAT) + (e0 + fields));
    lemma_subrange_split(b, 0, spec_enc_u32(TAG_CHAT), e0 + fields);
    lemma_dec_enc_u32_at(b, 0, TAG_CHAT);
    lemma_subrange_split(b, 4, e0, fields);
    lemma_dec_enc_str_at(b, 4, c.result);
    lemma_dec_enc_chat_fields_at(b, 4 + e0.len() as int, c.request);
}

proof fn lemma_text_result_round_trip(t: TextResultView)
    requires
        result_wf(ResultView::TextCompletion(t)),
    ensures
        spec_dec_result(spec_enc_result(ResultView::TextCompletion(t))) == Some(
            ResultView::TextCompletion(t),
        ),
{
    let b = spec_enc_result(ResultView::TextCompletion(t));
    assert(b.subrange(0, b.len() as int) =~= b);
    let e0 = spec_enc_str(t.result);
    let fields = spec_enc_text_req_fields(t.request);
    assert(b =~= spec_enc_u32(TAG_TEXT) + (e0 + fields));
    lemma_subrange_split(b, 0, spec_enc_u32(TAG_TEXT), e0 + fields);
    lemma_dec_enc_u32_at(b, 0, TAG_TEXT);
    lemma_subrange_split(b, 4, e0, fields);
    lemma_dec_enc_str_at(b, 4, t.result);
    lemma_dec_enc_text_fields_at(b, 4 + e0.len() as int, t.request);
}

#[verifier::rlimit(100)]
proof fn lemma_embedding_result_round_trip(e: EmbeddingResultView)
    requires
        result_wf(ResultView::Embedding(e)),
    ensures
        spec_dec_result(spec_enc_result(ResultView::Embedding(e))) == Some(
            ResultView::Embedding(e),
        ),
{
    let b = spec_enc_result(ResultView::Embedding(e));
    assert(b.subrange(0, b.len() as int) =~= b);
    let e0 = spec_enc_u64(e.result.len() as u64) + spec_enc_vecs(e.result);
    let fields = spec_enc_embedding_req_fields(e.request);
    assert(b =~= spec_enc_u32(TAG_EMBEDDING) + (e0 + fields));
    lemma_subrange_split(b, 0, spec_enc_u32(TAG_EMBEDDING), e0 + fields);
    lemma_dec_enc_u32_at(b, 0, TAG_EMBEDDING);
    lemma_subrange_split(b, 4, e0, fields);
    lemma_dec_enc_vec_list_at(b, 4, e.result);
    lemma_dec_enc_embedding_fields_at(b, 4 + e0.len() as int, e.request);
}

/// Round trip for results: decoding the encoding of any well-formed result
/// yields exactly that result.
pub proof fn lemma_result_round_trip(v: ResultView)
    requires
        result_wf(v),
    ensures
        spec_dec_result(spec_enc_result(v)) == Some(v),
{
    match v {
        ResultView::ChatCompletion(c) => lemma_chat_result_round_trip(c),
        ResultView::TextCompletion(t) => lemma_text_result_round_trip(t),
        ResultView::Embedding(e) => lemma_embedding_result_round_trip(e),
    }
}

} // verus!
