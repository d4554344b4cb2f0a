//! What came back from the transport, and what the caller gets for it.

use std::collections::HashMap;
use vstd::prelude::*;

verus! {

/// A JSON value of `serde_json`. Nothing is known of what is inside one.
#[verifier::external_type_specification]
#[verifier::external_body]
pub struct ExValue(serde_json::Value);

/// The error of `serde_json`. Nothing is known of what is inside one.
#[verifier::external_type_specification]
#[verifier::external_body]
pub struct ExJsonError(serde_json::Error);

/// Why a call gave no mapping.
#[derive(Debug, Clone, PartialEq, Eq)]
pub enum ApiError {
    /// The generator has no nonce left to hand out.
    NonceExhausted,
    /// The secret or the signing message is too long to be signed.
    Unsignable,
    /// The transport could not complete the call; its own words.
    Transport(String),
    /// The exchange answered with a status other than success.
    Status(u16),
    /// The body of the answer is no JSON object; the decoder's own words.
    Decode(String),
}

/// What the transport reports of one call.
#[derive(Debug, Clone, PartialEq, Eq)]
pub enum Outcome {
    /// No answer came: connection failure, timeout and the like.
    Failed(String),
    /// An answer came, with this status and this body.
    Answered { status: u16, body: String },
}

/// Whether `status` is one of the success codes, 200 to 299.
pub open spec fn is_success(status: u16) -> bool {
    200 <= status < 300
}

/// The fields that `serde_json` reads from `body`, or `None` where `body` is
/// no JSON object.
pub uninterp spec fn decoded_object(body: Seq<char>) -> Option<Map<String, serde_json::Value>>;

/// Whether `body` is a JSON object.
pub open spec fn is_json_object(body: Seq<char>) -> bool {
    decoded_object(body) is Some
}

/// Decodes `body` with `serde_json::from_str` into a map from field names to
/// JSON values. Whether that succeeds, and which fields come out, depends on
/// the text alone.
#[verifier::external_body]
fn parse_object(body: &str) -> (parsed: Result<HashMap<String, serde_json::Value>, serde_json::Error>)
    ensures
        match parsed {
            Ok(fields) => decoded_object(body@) == Some(fields@),
            Err(_) => decoded_object(body@) is None,
        },
{
    serde_json::from_str(body)
}

/// Formats a `serde_json::Error` through its `Display` impl. Nothing is
/// claimed of the text.
#[verifier::external_body]
fn error_text(err: &serde_json::Error) -> (text: String) {
    format!("{}", err)
}

/// Turns what the decoder returned into what the caller gets: the mapping as
/// it is, or a decode error.
pub fn decoded(parsed: Result<HashMap<String, serde_json::Value>, serde_json::Error>) -> (res: Result<
    HashMap<String, serde_json::Value>,
    ApiError,
>)
    ensures
        match parsed {
            Ok(fields) => res == Ok::<HashMap<String, serde_json::Value>, ApiError>(fields),
            Err(_) => res matches Err(ApiError::Decode(_)),
        },
{
    match parsed {
        Ok(fields) => Ok(fields),
        Err(err) => Err(ApiError::Decode(error_text(&err))),
    }
}

/// Decodes the body of a successful answer.
pub fn decode(body: &str) -> (res: Result<HashMap<String, serde_json::Value>, ApiError>)
    ensures
        match res {
            Ok(fields) => decoded_object(body@) == Some(fields@),
            Err(e) => decoded_object(body@) is None && e is Decode,
        },
{
    decoded(parse_object(body))
}

/// Gives the caller the mapping or the failure. A call that the transport
/// could not complete, an answer with a status other than success and a body
/// that is no JSON object each give their error; only a successful answer with
/// a JSON object gives a mapping.
pub fn interpret(outcome: Outcome) -> (res: Result<HashMap<String, serde_json::Value>, ApiError>)
    ensures
        match outcome {
            Outcome::Failed(reason) => res == Err::<HashMap<String, serde_json::Value>, ApiError>(
                ApiError::Transport(reason),
            ),
            Outcome::Answered { status, body } => if !is_success(status) {
                res == Err::<HashMap<String, serde_json::Value>, ApiError>(ApiError::Status(status))
            } else {
                match res {
                    Ok(fields) => decoded_object(body@) == Some(fields@),
                    Err(e) => decoded_object(body@) is None && e is Decode,
                }
            },
        },
{
    match outcome {
        Outcome::Failed(reason) => Err(ApiError::Transport(reason)),
        Outcome::Answered { status, body } => {
            if status < 200 || status >= 300 {
                Err(ApiError::Status(status))
            } else {
                decode(body.as_str())
            }
        },
    }
}

} // verus!
