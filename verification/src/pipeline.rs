//! The two runs that the codec and the cipher are put together to: text to
//! bytes, under a key or not, and bytes to text; and what becomes of the
//! result.

use crate::cipher::{buffer_view, decrypt, decrypt_spec, encrypt, encrypt_spec, KeyError};
use crate::codec::{decode, decode_spec, encode, encode_spec};
use crate::keys::{base64url_bytes, base64url_text, base64url_to_bytes, bytes_to_base64url};
use std::string::FromUtf8Error;
use vstd::prelude::*;
use vstd::slice::slice_to_vec;
use vstd::string::StringSliceAdditionalSpecFns;
use vstd::utf8::{decode_utf8, encode_utf8, valid_utf8};

verus! {

/// The error that `String::from_utf8` returns.
#[verifier::external_type_specification]
#[verifier::external_body]
pub struct ExFromUtf8Error(FromUtf8Error);

/// `String::from_utf8` turns bytes into a `String` if they are valid UTF-8,
/// and into an error if not.
pub assume_specification[ String::from_utf8 ](bytes: Vec<u8>) -> (out: Result<
    String,
    FromUtf8Error,
>)
    ensures
        out is Ok <==> valid_utf8(bytes@),
        out is Ok ==> out->Ok_0@ == decode_utf8(bytes@),
;

/// The name of the file that packed bytes are written to.
pub open spec fn encoded_name() -> Seq<char> {
    "encoded.bin"@
}

/// The name of the file that a text is written to.
pub open spec fn decoded_name() -> Seq<char> {
    "decoded.txt"@
}

/// Why [`do_decode`] gave no text.
#[derive(Clone, Copy, Debug, PartialEq, Eq, Structural)]
pub enum PipelineError {
    /// The input came as text and is no URL-safe base64.
    Input,
    /// The cipher refused to run.
    Key(KeyError),
}

/// What is to be done with a result.
#[derive(Debug, PartialEq, Eq)]
pub enum Output {
    /// Write `contents` to a new file called `name`.
    File { name: String, contents: Vec<u8> },
    /// Print the line.
    Line(String),
}

/// The key of a run, as a sequence.
pub open spec fn key_view(key: Option<&[u8]>) -> Option<Seq<u8>> {
    match key {
        Some(k) => Some(k@),
        None => None,
    }
}

/// What [`do_encode`] returns.
pub open spec fn do_encode_spec(text: Seq<char>, key: Option<Seq<u8>>) -> Result<
    Seq<u8>,
    KeyError,
> {
    match key {
        None => Ok(encode_spec(text)),
        Some(k) => encrypt_spec(encode_spec(text), k),
    }
}

/// The packed bytes that the input of [`do_decode`] stands for: the bytes
/// themselves where they were read from a file, and else what they hold as
/// URL-safe base64.
pub open spec fn packed_input(file_read: bool, bytes: Seq<u8>) -> Option<Seq<u8>> {
    if file_read {
        Some(bytes)
    } else if valid_utf8(bytes) {
        base64url_bytes(decode_utf8(bytes))
    } else {
        None
    }
}

/// What [`do_decode`] makes of packed bytes.
pub open spec fn opened_text(packed: Seq<u8>, key: Option<Seq<u8>>) -> Result<
    Seq<char>,
    PipelineError,
> {
    match key {
        None => Ok(decode_spec(packed)),
        Some(k) => match decrypt_spec(packed, k) {
            Ok(plain) => Ok(decode_spec(plain)),
            Err(e) => Err(PipelineError::Key(e)),
        },
    }
}

/// What [`do_decode`] returns.
pub open spec fn do_decode_spec(file_read: bool, bytes: Seq<u8>, key: Option<Seq<u8>>) -> Result<
    Seq<char>,
    PipelineError,
> {
    match packed_input(file_read, bytes) {
        None => Err(PipelineError::Input),
        Some(packed) => opened_text(packed, key),
    }
}

/// The text or the error of a result, the text as a sequence.
pub open spec fn text_view(out: Result<String, PipelineError>) -> Result<Seq<char>, PipelineError> {
    match out {
        Ok(text) => Ok(text@),
        Err(e) => Err(e),
    }
}

/// Packs a text and, where a key is given, encrypts the packed bytes under
/// it. Without a key nothing can fail.
///
/// What comes out under a key is as long as the packed text, and
/// [`do_decode`] under the same key reads out of it what [`decode`] reads out
/// of the packed text.
pub fn do_encode(text: &str, key: Option<&[u8]>) -> (out: Result<Vec<u8>, KeyError>)
    ensures
        buffer_view(out) == do_encode_spec(text@, key_view(key)),
        out matches Ok(bytes) ==> bytes@.len() == encode_spec(text@).len(),
        out matches Ok(bytes) ==> do_decode_spec(true, bytes@, key_view(key)) == Ok::<
            Seq<char>,
            PipelineError,
        >(decode_spec(encode_spec(text@))),
{
    let encoded = encode(text);
    match key {
        None => Ok(encoded),
        Some(k) => encrypt(encoded.as_slice(), k),
    }
}

/// Reads the text out of packed bytes, which are first decrypted where a key
/// is given.
///
/// With `file_read` the input is the packed bytes. Without it the input is
/// their URL-safe base64 form as UTF-8 text, and an input that is no such
/// text is refused.
pub fn do_decode(file_read: bool, bytes: Vec<u8>, key: Option<&[u8]>) -> (out: Result<
    String,
    PipelineError,
>)
    ensures
        text_view(out) == do_decode_spec(file_read, bytes@, key_view(key)),
{
    let packed = if file_read {
        bytes
    } else {
        match String::from_utf8(bytes) {
            Err(_) => {
                return Err(PipelineError::Input);
            },
            Ok(code) => match base64url_to_bytes(code.as_str()) {
                None => {
                    return Err(PipelineError::Input);
                },
                Some(unwrapped) => unwrapped,
            },
        }
    };
    match key {
        None => Ok(decode(packed.as_slice())),
        Some(k) => match decrypt(packed.as_slice(), k) {
            Ok(plain) => Ok(decode(plain.as_slice())),
            Err(e) => Err(PipelineError::Key(e)),
        },
    }
}

/// Says what is to be done with a result: packed bytes, as `Ok`, or a text,
/// as `Err`.
///
/// With `file_output` the result goes to a file: the bytes as they are, the
/// text as UTF-8. Without it the result is printed: the bytes in their
/// URL-safe base64 form, whose length must fit, and the text as it is.
pub fn do_output(file_output: bool, data: Result<Vec<u8>, String>) -> (out: Output)
    requires
        !file_output && data is Ok ==> 4 * data->Ok_0@.len() <= isize::MAX,
    ensures
        file_output ==> out is File,
        !file_output ==> out is Line,
        file_output && data is Ok ==> out->name@ == encoded_name() && out->contents@
            == data->Ok_0@,
        file_output && data is Err ==> out->name@ == decoded_name() && out->contents@
            == encode_utf8(data->Err_0@),
        !file_output && data is Ok ==> out->Line_0@ == base64url_text(data->Ok_0@),
        !file_output && data is Err ==> out->Line_0@ == data->Err_0@,
{
    match data {
        Ok(bytes) => {
            if file_output {
                Output::File { name: "encoded.bin".to_owned(), contents: bytes }
            } else {
                Output::Line(bytes_to_base64url(bytes.as_slice()))
            }
        },
        Err(string) => {
            if file_output {
                let contents = slice_to_vec(string.as_str().as_bytes());
                Output::File { name: "decoded.txt".to_owned(), contents }
            } else {
                Output::Line(string)
            }
        },
    }
}

} // verus!
