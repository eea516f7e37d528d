//! Reading a success body.
//!
//! Every `DELETE` of the API answers 204 with no body, which reads as JSON `null`: that is
//! `()` for a caller expecting nothing, and an error for one expecting a value.
use vstd::prelude::*;

use crate::error::{ClientError, ErrorKind};
use crate::text::{blank, concat, is_blank};

verus! {

/// Whether `c` is white space to JSON: a space, a tab, a line feed or a carriage return.
pub open spec fn json_white_space(c: char) -> bool {
    c == ' ' || c == '\t' || c == '\n' || c == '\r'
}

/// Whether `text` is the JSON `null`, with nothing but JSON white space around it.
pub open spec fn json_null(text: Seq<char>) -> bool {
    exists|i: int|
        #![trigger text.subrange(i, i + 4)]
        0 <= i && i + 4 <= text.len() && text.subrange(i, i + 4) == "null"@ && (forall|k: int|
            0 <= k < i ==> json_white_space(#[trigger] text[k])) && (forall|k: int|
            i + 4 <= k < text.len() ==> json_white_space(#[trigger] text[k]))
}

/// A type a success body can be read as.
pub trait FromJson: Sized {
    /// The value the JSON text `text` reads as, or `None` where the reader refuses it.
    spec fn json_value(text: Seq<char>) -> Option<Self>;

    /// Reads `text`; a refusal carries the reader's own explanation.
    fn from_json(text: &str) -> (r: Result<Self, String>)
        ensures
            match r {
                Ok(v) => Self::json_value(text@) == Some(v),
                Err(_) => Self::json_value(text@) is None,
            },
    ;
}

impl FromJson for () {
    /// `null`, white space around it aside, reads as `()`; nothing else does.
    open spec fn json_value(text: Seq<char>) -> Option<()> {
        if json_null(text) {
            Some(())
        } else {
            None
        }
    }

    fn from_json(text: &str) -> (r: Result<(), String>) {
        read_unit(text)
    }
}

/// Calls `serde_json::from_str::<()>` on `text`, a refusal becoming the error's `Display`
/// text. The contract claims that the call succeeds exactly on `null` with only JSON white
/// space around it: serde_json's `deserialize_unit` skips white space and reads the `null`
/// identifier, and `from_str` then accepts nothing but trailing white space.
#[verifier::external_body]
fn read_unit(text: &str) -> (r: Result<(), String>)
    ensures
        r is Ok <==> json_null(text@),
{
    serde_json::from_str::<()>(text).map_err(|error| error.to_string())
}

/// The text a body is read from: `null` where the body is blank, the body otherwise.
pub open spec fn json_source(body: Seq<char>) -> Seq<char> {
    if is_blank(body) {
        "null"@
    } else {
        body
    }
}

/// The message of a body that did not match the contract.
pub open spec fn unexpected_prefix() -> Seq<char> {
    "Unexpected response from the server: "@
}

/// What decoding `body` as a `T` may give: the value it reads as (a blank body reading as
/// `null`), or a `Decode` failure, worded for a blank body or carrying the reader's
/// explanation.
pub open spec fn decoded<T: FromJson>(body: Seq<char>, r: Result<T, ClientError>) -> bool {
    match T::json_value(json_source(body)) {
        Some(v) => r == Ok::<T, ClientError>(v),
        None => if is_blank(body) {
            r matches Err(e) && e@ == (ErrorKind::Decode, "The server returned an empty body"@)
        } else {
            r matches Err(e) && e@.0 == ErrorKind::Decode && e@.1.len() >= unexpected_prefix().len()
                && e@.1.subrange(0, unexpected_prefix().len() as int) == unexpected_prefix()
        },
    }
}

/// The text a body is read from: `null` for a blank body, the body itself otherwise.
pub fn json_text(body: &str) -> (r: &str)
    ensures
        r@ == json_source(body@),
{
    if blank(body) {
        proof {
            reveal_strlit("null");
        }
        "null"
    } else {
        body
    }
}

/// The failure of a body that does not read as the value wanted: worded for a blank body,
/// and carrying the reader's `explanation` otherwise.
pub fn decode_failure(blank_body: bool, explanation: &str) -> (r: ClientError)
    ensures
        blank_body ==> r@ == (ErrorKind::Decode, "The server returned an empty body"@),
        !blank_body ==> r@ == (ErrorKind::Decode, unexpected_prefix() + explanation@),
{
    if blank_body {
        ClientError::Decode("The server returned an empty body".to_owned())
    } else {
        ClientError::Decode(concat("Unexpected response from the server: ", explanation))
    }
}

/// Decodes a success body as a `T`.
///
/// A blank body reads as `null`, which `()` accepts and a value type refuses; a body that
/// does not read as a `T` is a `Decode` failure carrying the reader's explanation.
pub fn decode<T: FromJson>(body: &str) -> (r: Result<T, ClientError>)
    ensures
        decoded(body@, r),
{
    let text = json_text(body);
    match T::from_json(text) {
        Ok(v) => Ok(v),
        Err(explanation) => {
            let failure = decode_failure(blank(body), explanation.as_str());
            proof {
                if !is_blank(body@) {
                    assert((unexpected_prefix() + explanation@).subrange(
                        0,
                        unexpected_prefix().len() as int,
                    ) =~= unexpected_prefix());
                }
            }
            Err(failure)
        },
    }
}

/// An empty success body, as every `DELETE` answers, decodes as `()`: a blank body reads as
/// `null`, which `()` accepts.
pub proof fn lemma_blank_body_reads_as_unit(body: Seq<char>, r: Result<(), ClientError>)
    requires
        is_blank(body),
        decoded(body, r),
    ensures
        r == Ok::<(), ClientError>(()),
{
    reveal_strlit("null");
    let t = "null"@;
    let i: int = 0;
    assert(t.len() == 4);
    assert(t.subrange(i, i + 4) =~= t);
    assert(forall|k: int| 0 <= k < i ==> json_white_space(#[trigger] t[k]));
    assert(forall|k: int| i + 4 <= k < t.len() ==> json_white_space(#[trigger] t[k]));
    assert(json_null(t));
}

} // verus!
