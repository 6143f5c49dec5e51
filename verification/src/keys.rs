//! Keys: drawing a new one, and the text form in which a key travels.
//!
//! The text form is URL-safe base64 without padding, as the `base64_url`
//! crate writes and reads it.

use crate::cipher::{buffer_view, KeyError, KEY_LEN};
use rand::rngs::ThreadRng;
use rand::Rng;
use vstd::prelude::*;

verus! {

/// The generator of the `rand` crate that each thread has for itself.
#[verifier::external_type_specification]
#[verifier::external_body]
pub struct ExThreadRng(ThreadRng);

/// `rand::rng` hands out the calling thread's generator. Nothing is said of
/// it.
pub assume_specification[ rand::rng ]() -> (source: ThreadRng);

/// Calls `Rng::random` for one byte. Nothing is said of the byte: any value
/// may come.
#[verifier::external_body]
fn next_byte(source: &mut ThreadRng) -> (byte: u8) {
    source.random()
}

/// The text that `base64_url::encode` writes for `bytes`.
pub uninterp spec fn base64url_text(bytes: Seq<u8>) -> Seq<char>;

/// The bytes that `base64_url::decode` reads out of `text`, or `None` where
/// it refuses the text.
pub uninterp spec fn base64url_bytes(text: Seq<char>) -> Option<Seq<u8>>;

/// Calls `base64_url::encode`.
///
/// Taken on trust: the text is a function of the bytes alone, and
/// `base64_url::decode` reads the same bytes out of it. The length of the
/// text, a third more than that of the bytes, must fit.
#[verifier::external_body]
pub(crate) fn bytes_to_base64url(bytes: &[u8]) -> (text: String)
    requires
        4 * bytes@.len() <= isize::MAX,
    ensures
        text@ == base64url_text(bytes@),
        base64url_bytes(text@) == Some(bytes@),
{
    base64_url::encode(bytes)
}

/// Calls `base64_url::decode`, and keeps the bytes where it succeeds.
///
/// Taken on trust: whether the text is accepted, and the bytes read out of
/// it, are a function of the text alone.
#[verifier::external_body]
pub(crate) fn base64url_to_bytes(code: &str) -> (bytes: Option<Vec<u8>>)
    ensures
        bytes is Some <==> base64url_bytes(code@) is Some,
        bytes is Some ==> bytes->Some_0@ == base64url_bytes(code@)->Some_0,
{
    base64_url::decode(code).ok()
}

/// Draws a new key: [`KEY_LEN`] bytes from the thread's random generator.
pub fn generate_key() -> (key: Vec<u8>)
    ensures
        key@.len() == KEY_LEN,
{
    let mut source = rand::rng();
    let mut key: Vec<u8> = Vec::new();
    while key.len() < KEY_LEN
        invariant
            key@.len() <= KEY_LEN,
        decreases KEY_LEN - key@.len(),
    {
        let byte = next_byte(&mut source);
        key.push(byte);
    }
    key
}

/// The key that a text stands for.
pub open spec fn parse_key_spec(text: Seq<char>) -> Result<Seq<u8>, KeyError> {
    match base64url_bytes(text) {
        None => Err(KeyError::Malformed),
        Some(bytes) => if bytes.len() == KEY_LEN {
            Ok(bytes)
        } else {
            Err(KeyError::Length)
        },
    }
}

/// Reads a key out of its text form. A text that is no URL-safe base64 is
/// refused as malformed, one that stands for more or fewer than [`KEY_LEN`]
/// bytes for its length.
pub fn parse_key(text: &str) -> (out: Result<Vec<u8>, KeyError>)
    ensures
        buffer_view(out) == parse_key_spec(text@),
        out matches Ok(key) ==> key@.len() == KEY_LEN,
{
    match base64url_to_bytes(text) {
        None => Err(KeyError::Malformed),
        Some(bytes) => {
            if bytes.len() == KEY_LEN {
                Ok(bytes)
            } else {
                Err(KeyError::Length)
            }
        },
    }
}

/// The text form of a key.
pub fn key_text(key: &[u8]) -> (text: String)
    requires
        key@.len() == KEY_LEN,
    ensures
        text@ == base64url_text(key@),
        parse_key_spec(text@) == Ok::<Seq<u8>, KeyError>(key@),
{
    bytes_to_base64url(key)
}

/// Draws a new key and returns its text form, which [`parse_key`] accepts.
pub fn gen_key() -> (text: String)
    ensures
        parse_key_spec(text@) is Ok,
{
    let key = generate_key();
    key_text(key.as_slice())
}

} // verus!
