//! The signing message of a private request and its HMAC-SHA256 signature.

use crate::decimal::{decimal, decimal_string};
use crate::hex::{encode_hex, hex_lower, is_lower_hex, lemma_hex_lower_injective};
use crypto::hmac::Hmac;
use crypto::mac::Mac;
use crypto::sha2::Sha256;
use vstd::prelude::*;
use vstd::string::StringExecFns;
use vstd::string::StringSliceAdditionalSpecFns;
use vstd::utf8::encode_utf8;

verus! {

/// The longest key or message, in bytes, that HMAC-SHA256 is computed for:
/// SHA-256 counts its input in bits in 64 bits, and the inner hash takes one
/// 64-byte block of key material before the message.
pub const HMAC_INPUT_LIMIT: u64 = 0x1FFF_FFFF_FFFF_FFBF;

/// The HMAC-SHA256 code of `message` under `key`, as the `crypto` crate
/// computes it.
pub uninterp spec fn hmac_sha256(key: Seq<u8>, message: Seq<u8>) -> Seq<u8>;

/// Whether the UTF-8 bytes of `text` are few enough to be a key or a message.
pub open spec fn signable(text: Seq<char>) -> bool {
    encode_utf8(text).len() <= HMAC_INPUT_LIMIT
}

/// The signature of `message` under `secret`: the HMAC-SHA256 code of the
/// message's UTF-8 bytes, keyed by the secret's UTF-8 bytes, in lower-case
/// hexadecimal.
pub open spec fn signature_of(secret: Seq<char>, message: Seq<char>) -> Seq<char> {
    hex_lower(hmac_sha256(encode_utf8(secret), encode_utf8(message)))
}

/// The message that is signed for a GET: the nonce in decimal, then the path,
/// then the query string, with nothing in between.
pub open spec fn get_message_of(nonce: int, path: Seq<char>, query: Seq<char>) -> Seq<char> {
    decimal(nonce) + path + query
}

/// The message that is signed for a POST: the nonce in decimal, then the body,
/// with nothing in between.
pub open spec fn post_message_of(nonce: int, body: Seq<char>) -> Seq<char> {
    decimal(nonce) + body
}

/// Computes HMAC-SHA256 with the `crypto` crate: `Hmac::new` over
/// `Sha256::new()` and the key, `Mac::input` of the message, `Mac::result` and
/// `MacResult::code`. The code is a function of key and message alone and is
/// as long as the SHA-256 output, 32 bytes. The bounds keep the inputs below
/// the size at which the crate's count of input bits overflows and panics.
#[verifier::external_body]
fn hmac_sha256_code(key: &[u8], message: &[u8]) -> (code: Vec<u8>)
    requires
        key@.len() <= HMAC_INPUT_LIMIT,
        message@.len() <= HMAC_INPUT_LIMIT,
    ensures
        code@ == hmac_sha256(key@, message@),
        code@.len() == 32,
{
    let mut mac = Hmac::new(Sha256::new(), key);
    mac.input(message);
    mac.result().code().to_vec()
}

/// Signs `message` with `secret`. The result is 64 lower-case hexadecimal
/// characters, and the same secret and message always give the same signature.
pub fn signature(secret: &str, message: &str) -> (sig: String)
    requires
        signable(secret@),
        signable(message@),
    ensures
        sig@ == signature_of(secret@, message@),
        sig@.len() == 64,
        forall|i: int| 0 <= i < 64 ==> is_lower_hex(#[trigger] sig@[i]),
{
    let code = hmac_sha256_code(secret.as_bytes(), message.as_bytes());
    encode_hex(code.as_slice())
}

/// Two signatures are the same only where the two HMAC-SHA256 codes are: the
/// hexadecimal text never merges two codes.
pub proof fn lemma_equal_signatures_equal_codes(
    secret_a: Seq<char>,
    message_a: Seq<char>,
    secret_b: Seq<char>,
    message_b: Seq<char>,
)
    ensures
        signature_of(secret_a, message_a) == signature_of(secret_b, message_b) ==> hmac_sha256(
            encode_utf8(secret_a),
            encode_utf8(message_a),
        ) == hmac_sha256(encode_utf8(secret_b), encode_utf8(message_b)),
{
    let code_a = hmac_sha256(encode_utf8(secret_a), encode_utf8(message_a));
    let code_b = hmac_sha256(encode_utf8(secret_b), encode_utf8(message_b));
    if hex_lower(code_a) == hex_lower(code_b) {
        lemma_hex_lower_injective(code_a, code_b);
    }
}

/// The UTF-8 bytes of a text are at most four for each character.
proof fn lemma_utf8_len(text: Seq<char>)
    ensures
        encode_utf8(text).len() <= 4 * text.len(),
    decreases text.len(),
{
    if text.len() > 0 {
        lemma_utf8_len(text.drop_first());
    }
}

/// A text of up to a quarter of the limit in characters is signable, whatever
/// the characters are.
pub proof fn lemma_short_text_signable(text: Seq<char>)
    requires
        4 * text.len() <= HMAC_INPUT_LIMIT,
    ensures
        signable(text),
{
    lemma_utf8_len(text);
}

/// Tests whether `text` is short enough to be a key or a message.
pub fn is_signable(text: &str) -> (ok: bool)
    ensures
        ok == signable(text@),
{
    text.as_bytes().len() as u64 <= HMAC_INPUT_LIMIT
}

/// Builds the signing message of a GET.
pub fn get_message(nonce: i64, path: &str, query: &str) -> (message: String)
    ensures
        message@ == get_message_of(nonce as int, path@, query@),
{
    let mut message = decimal_string(nonce);
    message.append(path);
    message.append(query);
    message
}

/// Builds the signing message of a POST.
pub fn post_message(nonce: i64, body: &str) -> (message: String)
    ensures
        message@ == post_message_of(nonce as int, body@),
{
    let mut message = decimal_string(nonce);
    message.append(body);
    message
}

} // verus!
