//! Framing of requests and responses on an unbuffered byte stream.
//!
//! A request is the command's UTF-8 bytes and one newline. A response is
//! UTF-8 text ended by one NUL byte; there is no length prefix.
use vstd::prelude::*;
use vstd::utf8::{decode_utf8, encode_utf8, valid_utf8};

use crate::error::R2PipeError;

verus! {

/// The byte that ends a response frame.
pub const TERMINATOR: u8 = 0;

/// The byte that ends a request frame.
pub const NEWLINE: u8 = 10;

/// The bytes written for one command.
pub open spec fn request_frame(command: Seq<char>) -> Seq<u8> {
    encode_utf8(command).push(10u8)
}

/// No byte of `s` is the terminator.
pub open spec fn terminator_free(s: Seq<u8>) -> bool {
    forall|j: int| 0 <= j < s.len() ==> s[j] != 0u8
}

/// `i` is the position of the first terminator in `s`.
pub open spec fn first_terminator_at(s: Seq<u8>, i: int) -> bool {
    0 <= i < s.len() && s[i] == 0u8 && terminator_free(s.take(i))
}

/// Some byte of `s` is the terminator.
pub open spec fn has_terminator(s: Seq<u8>) -> bool {
    exists|i: int| 0 <= i < s.len() && s[i] == 0u8
}

/// The position of the first terminator in `s` (meaningful when there is one).
pub open spec fn terminator_index(s: Seq<u8>) -> int {
    choose|i: int| first_terminator_at(s, i)
}

/// The payload of the first frame of `s`: the bytes before its first terminator.
pub open spec fn frame_payload(s: Seq<u8>) -> Seq<u8> {
    s.take(terminator_index(s))
}

/// What follows the first frame of `s`.
pub open spec fn after_frame(s: Seq<u8>) -> Seq<u8> {
    s.skip(terminator_index(s) + 1)
}

/// A stream that holds a terminator has exactly one first terminator.
pub proof fn lemma_first_terminator(s: Seq<u8>)
    requires
        has_terminator(s),
    ensures
        first_terminator_at(s, terminator_index(s)),
        forall|i: int| first_terminator_at(s, i) ==> i == terminator_index(s),
{
    let k = choose|k: int| 0 <= k < s.len() && s[k] == 0u8;
    lemma_least_terminator(s, k);
    let i = choose|i: int| first_terminator_at(s, i);
    assert forall|a: int| first_terminator_at(s, a) implies a == i by {
        if a < i {
            assert(s.take(i)[a] == 0u8);
        } else if a > i {
            assert(s.take(a)[i] == 0u8);
        }
    }
}

proof fn lemma_least_terminator(s: Seq<u8>, k: int)
    requires
        0 <= k < s.len(),
        s[k] == 0u8,
    ensures
        exists|i: int| first_terminator_at(s, i),
    decreases k,
{
    if terminator_free(s.take(k)) {
        assert(first_terminator_at(s, k));
    } else {
        let j = choose|j: int| 0 <= j < s.take(k).len() && s.take(k)[j] == 0u8;
        lemma_least_terminator(s, j);
    }
}

/// A response whose payload `p` holds no NUL is handed back as exactly `p`:
/// the terminator is dropped, and whatever follows it is left in the stream.
pub proof fn lemma_payload_returned_exactly(p: Seq<u8>, rest: Seq<u8>)
    requires
        terminator_free(p),
    ensures
        has_terminator(p.push(0u8) + rest),
        terminator_index(p.push(0u8) + rest) == p.len(),
        frame_payload(p.push(0u8) + rest) == p,
        after_frame(p.push(0u8) + rest) == rest,
{
    let s = p.push(0u8) + rest;
    assert(s[p.len() as int] == 0u8);
    assert(s.take(p.len() as int) =~= p);
    assert(first_terminator_at(s, p.len() as int));
    lemma_first_terminator(s);
    assert(s.skip(p.len() as int + 1) =~= rest);
}

/// Two responses sent one after the other come out in that order, though
/// nothing in the stream tells them apart but the terminators.
pub proof fn lemma_responses_in_order(a: Seq<u8>, b: Seq<u8>)
    requires
        terminator_free(a),
        terminator_free(b),
    ensures
        has_terminator(a.push(0u8) + b.push(0u8)),
        frame_payload(a.push(0u8) + b.push(0u8)) == a,
        has_terminator(after_frame(a.push(0u8) + b.push(0u8))),
        frame_payload(after_frame(a.push(0u8) + b.push(0u8))) == b,
        after_frame(after_frame(a.push(0u8) + b.push(0u8))).len() == 0,
{
    lemma_payload_returned_exactly(a, b.push(0u8));
    lemma_payload_returned_exactly(b, Seq::empty());
    assert(b.push(0u8) + Seq::<u8>::empty() =~= b.push(0u8));
}

/// Relies on std::str::from_utf8: it accepts exactly well-formed UTF-8, and
/// the text it gives back is those bytes decoded.
#[verifier::external_body]
fn utf8_text<'a>(bytes: &'a [u8]) -> (r: Option<&'a str>)
    ensures
        r is Some <==> valid_utf8(bytes@),
        r matches Some(t) ==> t@ == decode_utf8(bytes@),
{
    match std::str::from_utf8(bytes) {
        Ok(t) => Some(t),
        Err(_) => None,
    }
}

/// The request frame for `command`: its UTF-8 bytes, then a newline.
pub fn encode_request(command: &str) -> (r: Vec<u8>)
    ensures
        r@ == request_frame(command@),
{
    let bytes = command.as_bytes();
    let mut out: Vec<u8> = Vec::new();
    out.extend_from_slice(bytes);
    out.push(NEWLINE);
    out
}

/// The position of the first terminator in `buf`, if there is one.
pub fn find_terminator(buf: &[u8]) -> (r: Option<usize>)
    ensures
        r is None <==> !has_terminator(buf@),
        r matches Some(i) ==> first_terminator_at(buf@, i as int) && i as int == terminator_index(buf@),
{
    let mut i: usize = 0;
    while i < buf.len()
        invariant
            i <= buf@.len(),
            terminator_free(buf@.take(i as int)),
        decreases buf@.len() - i,
    {
        if buf[i] == TERMINATOR {
            proof {
                assert(first_terminator_at(buf@, i as int));
                lemma_first_terminator(buf@);
            }
            return Some(i);
        }
        proof {
            assert(buf@.take(i as int + 1) =~= buf@.take(i as int).push(buf@[i as int]));
        }
        i = i + 1;
    }
    proof {
        assert(buf@.take(i as int) =~= buf@);
    }
    None
}

/// The text of a response payload: `Decode` unless it is well-formed UTF-8.
pub fn decode_payload(payload: &[u8]) -> (r: Result<String, R2PipeError>)
    ensures
        r is Ok <==> valid_utf8(payload@),
        r matches Ok(t) ==> t@ == decode_utf8(payload@),
        r matches Err(e) ==> e == R2PipeError::Decode,
{
    match utf8_text(payload) {
        Some(t) => Ok(t.to_owned()),
        None => Err(R2PipeError::Decode),
    }
}

/// The first response frame of a complete stream and how many bytes it took.
///
/// A stream that ends before any terminator is a `Transport` failure: the
/// peer went away mid-frame. A NUL inside what the peer meant as one payload
/// ends the frame there.
pub fn decode_response(stream: &[u8]) -> (r: Result<(String, usize), R2PipeError>)
    ensures
        !has_terminator(stream@) ==> r == Err::<(String, usize), R2PipeError>(R2PipeError::Transport),
        has_terminator(stream@) ==> match r {
            Ok((t, used)) => valid_utf8(frame_payload(stream@)) && t@ == decode_utf8(
                frame_payload(stream@),
            ) && used == terminator_index(stream@) + 1,
            Err(e) => !valid_utf8(frame_payload(stream@)) && e == R2PipeError::Decode,
        },
{
    match find_terminator(stream) {
        None => Err(R2PipeError::Transport),
        Some(i) => {
            let n = stream.len();
            assert(i < n);
            let payload = slice_prefix(stream, i);
            match decode_payload(payload.as_slice()) {
                Ok(t) => Ok((t, i + 1)),
                Err(e) => Err(e),
            }
        }
    }
}

/// The first `n` bytes of `s`, copied.
pub fn slice_prefix(s: &[u8], n: usize) -> (r: Vec<u8>)
    requires
        n <= s@.len(),
    ensures
        r@ == s@.take(n as int),
{
    let mut out: Vec<u8> = Vec::new();
    let mut i: usize = 0;
    while i < n
        invariant
            i <= n <= s@.len(),
            out@ == s@.take(i as int),
        decreases n - i,
    {
        out.push(s[i]);
        proof {
            assert(s@.take(i as int + 1) =~= s@.take(i as int).push(s@[i as int]));
        }
        i = i + 1;
    }
    out
}

/// The bytes of `s` from position `n` on, copied.
pub fn slice_suffix(s: &[u8], n: usize) -> (r: Vec<u8>)
    requires
        n <= s@.len(),
    ensures
        r@ == s@.skip(n as int),
{
    let mut out: Vec<u8> = Vec::new();
    let mut i: usize = n;
    while i < s.len()
        invariant
            n <= i <= s@.len(),
            out@ == s@.subrange(n as int, i as int),
        decreases s@.len() - i,
    {
        out.push(s[i]);
        proof {
            assert(s@.subrange(n as int, i as int + 1) =~= s@.subrange(n as int, i as int).push(
                s@[i as int],
            ));
        }
        i = i + 1;
    }
    proof {
        assert(s@.subrange(n as int, i as int) =~= s@.skip(n as int));
    }
    out
}

} // verus!
