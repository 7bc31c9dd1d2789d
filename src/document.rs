//! Turning a response into a JSON document.
//!
//! Some engine commands print nothing; a blank response stands for the empty
//! object rather than a parse failure.
use vstd::prelude::*;
use vstd::utf8::{encode_utf8, is_ascii_chars, is_ascii_chars_encode_utf8};

use crate::error::R2PipeError;

verus! {

/// serde_json's document type, carried through without looking inside.
#[verifier::external_type_specification]
#[verifier::external_body]
pub struct ExValue(serde_json::Value);

/// serde_json's parse error, mapped to `Structured` once it comes back.
#[verifier::external_type_specification]
#[verifier::external_body]
pub struct ExJsonError(serde_json::Error);

/// Whether serde_json parses `text` as a JSON document.
pub uninterp spec fn json_accepts(text: Seq<char>) -> bool;

/// Relies on serde_json::from_str into a `Value`: whether it succeeds
/// depends on the text alone, and the text `{}` parses (as the empty object).
#[verifier::external_body]
fn parse_json(text: &str) -> (r: Result<serde_json::Value, serde_json::Error>)
    ensures
        r is Ok <==> json_accepts(text@),
        text@ == "{}"@ ==> r is Ok,
{
    serde_json::from_str(text)
}

/// JSON whitespace: space, tab, line feed, carriage return.
pub open spec fn is_json_space(b: u8) -> bool {
    b == 32 || b == 9 || b == 10 || b == 13
}

/// Every byte of `b` is JSON whitespace (so too when `b` is empty).
pub open spec fn is_blank(b: Seq<u8>) -> bool {
    forall|j: int| 0 <= j < b.len() ==> is_json_space(#[trigger] b[j])
}

/// The text parsed for a response: the empty object for a blank one, else
/// the response itself.
pub open spec fn document_text_of(response: Seq<char>) -> Seq<char> {
    if is_blank(encode_utf8(response)) {
        "{}"@
    } else {
        response
    }
}

/// The text parsed for `response`.
pub fn document_text(response: &str) -> (r: String)
    ensures
        r@ == document_text_of(response@),
{
    let b = response.as_bytes();
    let mut i: usize = 0;
    while i < b.len()
        invariant
            i <= b@.len(),
            b@ == encode_utf8(response@),
            forall|j: int| 0 <= j < i ==> is_json_space(#[trigger] b@[j]),
        decreases b@.len() - i,
    {
        let c = b[i];
        if !(c == 32 || c == 9 || c == 10 || c == 13) {
            assert(!is_json_space(b@[i as int]));
            return response.to_owned();
        }
        i = i + 1;
    }
    proof {
        reveal_strlit("{}");
    }
    "{}".to_owned()
}

/// Parse `response` as a JSON document; a blank response is the empty
/// object, and text that does not parse is `Structured`.
pub fn parse_document(response: &str) -> (r: Result<serde_json::Value, R2PipeError>)
    ensures
        r is Ok <==> json_accepts(document_text_of(response@)),
        is_blank(encode_utf8(response@)) ==> r is Ok,
        response@ == "{}"@ ==> r is Ok,
        r matches Err(e) ==> e == R2PipeError::Structured,
{
    proof {
        lemma_empty_response_is_empty_object();
    }
    let text = document_text(response);
    match parse_json(text.as_str()) {
        Ok(v) => Ok(v),
        Err(_) => Err(R2PipeError::Structured),
    }
}

/// An empty response and the response `{}` are parsed from the same text,
/// the empty object, so they give the same document.
pub proof fn lemma_empty_response_is_empty_object()
    ensures
        document_text_of(""@) == "{}"@,
        document_text_of("{}"@) == "{}"@,
        document_text_of(""@) == document_text_of("{}"@),
{
    reveal_strlit("");
    reveal_strlit("{}");
    assert(encode_utf8(""@).len() == 0);
    let braces = "{}"@;
    assert(is_ascii_chars(braces));
    is_ascii_chars_encode_utf8(braces);
    assert(encode_utf8(braces)[0] == 123u8);
    assert(!is_json_space(encode_utf8(braces)[0]));
}

} // verus!
