//! Keyed, length-preserving encryption of a byte buffer.
//!
//! The cipher is FF1 over AES-128, run on the buffer as a string of bits with
//! an empty tweak. The `fpe` crate does the work; this module checks what is
//! handed to it.

use aes::Aes128;
use fpe::ff1::{BinaryNumeralString, FF1};
use vstd::prelude::*;

verus! {

/// The length of a key in bytes.
pub const KEY_LEN: usize = 16;

/// The longest buffer that the cipher takes, in bytes. FF1 writes the number
/// of bits of its input into four bytes, so a buffer holds fewer than 2^32
/// bits.
pub const MAX_CIPHER_LEN: usize = 0x1FFF_FFFF;

/// Why [`encrypt`] or [`decrypt`] gave no buffer, or a key text gave no key.
#[derive(Clone, Copy, Debug, PartialEq, Eq, Structural)]
pub enum KeyError {
    /// The text is not the transport form of any byte string.
    Malformed,
    /// The key does not hold exactly [`KEY_LEN`] bytes.
    Length,
    /// The cipher does not take the buffer: it is longer than
    /// [`MAX_CIPHER_LEN`].
    Rejected,
}

/// What FF1 encryption under AES-128 makes of `data`, read as a string of
/// bits, with the key `key` and an empty tweak.
pub uninterp spec fn ff1_encrypt(key: Seq<u8>, data: Seq<u8>) -> Seq<u8>;

/// What FF1 decryption under AES-128 makes of `data`, read as a string of
/// bits, with the key `key` and an empty tweak.
pub uninterp spec fn ff1_decrypt(key: Seq<u8>, data: Seq<u8>) -> Seq<u8>;

/// Calls `FF1::<Aes128>::new` with radix two and `FF1::encrypt` with an empty
/// tweak, on `data` as a `BinaryNumeralString` in little-endian bit order.
///
/// Taken on trust: with a key of sixteen bytes and a buffer of fewer than
/// 2^32 bits the call succeeds; the result is as long as `data`; and FF1
/// decryption under the same key leads back from it to `data`.
#[verifier::external_body]
fn ff1_encrypt_bytes(key: &[u8], data: &[u8]) -> (out: Option<Vec<u8>>)
    requires
        key@.len() == KEY_LEN,
        data@.len() <= MAX_CIPHER_LEN,
    ensures
        out is Some,
        out->Some_0@ == ff1_encrypt(key@, data@),
        out->Some_0@.len() == data@.len(),
        ff1_decrypt(key@, out->Some_0@) == data@,
{
    let cipher = FF1::<Aes128>::new(key, 2).ok()?;
    let sealed = cipher.encrypt(&[], &BinaryNumeralString::from_bytes_le(data)).ok()?;
    Some(sealed.to_bytes_le())
}

/// Calls `FF1::<Aes128>::new` with radix two and `FF1::decrypt` with an empty
/// tweak, on `data` as a `BinaryNumeralString` in little-endian bit order.
///
/// Taken on trust: with a key of sixteen bytes and a buffer of fewer than
/// 2^32 bits the call succeeds, and the result is as long as `data`.
#[verifier::external_body]
fn ff1_decrypt_bytes(key: &[u8], data: &[u8]) -> (out: Option<Vec<u8>>)
    requires
        key@.len() == KEY_LEN,
        data@.len() <= MAX_CIPHER_LEN,
    ensures
        out is Some,
        out->Some_0@ == ff1_decrypt(key@, data@),
        out->Some_0@.len() == data@.len(),
{
    let cipher = FF1::<Aes128>::new(key, 2).ok()?;
    let opened = cipher.decrypt(&[], &BinaryNumeralString::from_bytes_le(data)).ok()?;
    Some(opened.to_bytes_le())
}

/// What [`encrypt`] returns for a buffer and a key.
pub open spec fn encrypt_spec(bytes: Seq<u8>, key: Seq<u8>) -> Result<Seq<u8>, KeyError> {
    if key.len() != KEY_LEN {
        Err(KeyError::Length)
    } else if bytes.len() > MAX_CIPHER_LEN {
        Err(KeyError::Rejected)
    } else {
        Ok(ff1_encrypt(key, bytes))
    }
}

/// What [`decrypt`] returns for a buffer and a key.
pub open spec fn decrypt_spec(bytes: Seq<u8>, key: Seq<u8>) -> Result<Seq<u8>, KeyError> {
    if key.len() != KEY_LEN {
        Err(KeyError::Length)
    } else if bytes.len() > MAX_CIPHER_LEN {
        Err(KeyError::Rejected)
    } else {
        Ok(ff1_decrypt(key, bytes))
    }
}

/// The buffer or the error of a result, the buffer as a sequence.
pub open spec fn buffer_view(out: Result<Vec<u8>, KeyError>) -> Result<Seq<u8>, KeyError> {
    match out {
        Ok(buffer) => Ok(buffer@),
        Err(e) => Err(e),
    }
}

/// Encrypts `bytes` under `key`.
///
/// A key that is not sixteen bytes long is refused, and so is a buffer that
/// the cipher cannot take. Every other buffer gives a buffer of its own
/// length, from which [`decrypt`] under the same key leads back to `bytes`.
pub fn encrypt(bytes: &[u8], key: &[u8]) -> (out: Result<Vec<u8>, KeyError>)
    ensures
        buffer_view(out) == encrypt_spec(bytes@, key@),
        out matches Ok(sealed) ==> sealed@.len() == bytes@.len(),
        out matches Ok(sealed) ==> decrypt_spec(sealed@, key@) == Ok::<Seq<u8>, KeyError>(bytes@),
{
    if key.len() != KEY_LEN {
        return Err(KeyError::Length);
    }
    if bytes.len() > MAX_CIPHER_LEN {
        return Err(KeyError::Rejected);
    }
    match ff1_encrypt_bytes(key, bytes) {
        Some(sealed) => Ok(sealed),
        None => Err(KeyError::Rejected),
    }
}

/// Decrypts `bytes` under `key`: the inverse of [`encrypt`] under that key.
///
/// A key that is not sixteen bytes long is refused, and so is a buffer that
/// the cipher cannot take. Every other buffer gives a buffer of its own
/// length.
pub fn decrypt(bytes: &[u8], key: &[u8]) -> (out: Result<Vec<u8>, KeyError>)
    ensures
        buffer_view(out) == decrypt_spec(bytes@, key@),
        out matches Ok(opened) ==> opened@.len() == bytes@.len(),
{
    if key.len() != KEY_LEN {
        return Err(KeyError::Length);
    }
    if bytes.len() > MAX_CIPHER_LEN {
        return Err(KeyError::Rejected);
    }
    match ff1_decrypt_bytes(key, bytes) {
        Some(opened) => Ok(opened),
        None => Err(KeyError::Rejected),
    }
}

} // verus!
