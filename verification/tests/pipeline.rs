use fivebit::cipher::{encrypt, KeyError, MAX_CIPHER_LEN};
use fivebit::codec::encode;
use fivebit::pipeline::{do_decode, do_encode, do_output, Output, PipelineError};

const KEY: [u8; 16] = [0x42; 16];

#[test]
fn do_encode_without_key_is_encode() {
    assert_eq!(do_encode("ab", None), Ok(vec![0x00, 0x40]));
    assert_eq!(do_encode("Hello", None), Ok(encode("hello")));
}

#[test]
fn do_encode_with_key_is_encode_then_encrypt() {
    let out = do_encode("hello, world.", Some(&KEY)).unwrap();
    assert_eq!(out, encrypt(&encode("hello, world."), &KEY).unwrap());
    assert_eq!(out.len(), encode("hello, world.").len());
    assert_ne!(out, encode("hello, world."));
}

#[test]
fn do_encode_passes_the_key_error_on() {
    assert_eq!(do_encode("hello", Some(&[0u8; 15])), Err(KeyError::Length));
    assert_eq!(do_encode("", Some(&[])), Err(KeyError::Length));
}

#[test]
fn do_decode_from_file_bytes() {
    assert_eq!(do_decode(true, vec![0x00, 0x40], None), Ok("aba".to_string()));
    assert_eq!(do_decode(true, vec![], None), Ok(String::new()));
}

#[test]
fn do_decode_from_text() {
    // "AEA" is the base64 form of the bytes 00 40.
    assert_eq!(do_decode(false, b"AEA".to_vec(), None), Ok("aba".to_string()));
    assert_eq!(do_decode(false, Vec::new(), None), Ok(String::new()));
}

#[test]
fn do_decode_refuses_text_that_is_no_base64() {
    assert_eq!(do_decode(false, b"A!A".to_vec(), None), Err(PipelineError::Input));
    assert_eq!(do_decode(false, b"AEA=".to_vec(), None), Err(PipelineError::Input));
    assert_eq!(do_decode(false, vec![0xFF, 0xFE], None), Err(PipelineError::Input));
    assert_eq!(do_decode(false, b"A!A".to_vec(), Some(&[0u8; 3])), Err(PipelineError::Input));
}

#[test]
fn do_decode_passes_the_key_error_on() {
    assert_eq!(
        do_decode(true, vec![1, 2, 3], Some(&[0u8; 15])),
        Err(PipelineError::Key(KeyError::Length))
    );
    assert_eq!(
        do_decode(false, b"AEA".to_vec(), Some(&[0u8; 17])),
        Err(PipelineError::Key(KeyError::Length))
    );
}

#[test]
fn do_decode_rejects_what_the_cipher_cannot_take() {
    let data = vec![0u8; MAX_CIPHER_LEN + 1];
    assert_eq!(do_decode(true, data, Some(&KEY)), Err(PipelineError::Key(KeyError::Rejected)));
}

#[test]
fn pipeline_round_trip_with_key() {
    for text in ["abc", "hello, world.\nbye: x", "a", ""] {
        let sealed = do_encode(text, Some(&KEY)).unwrap();
        assert_eq!(do_decode(true, sealed, Some(&KEY)), Ok(text.to_string()));
    }
    let sealed = do_encode("ab", Some(&KEY)).unwrap();
    assert_eq!(do_decode(true, sealed, Some(&KEY)), Ok("aba".to_string()));
}

#[test]
fn pipeline_round_trip_through_text() {
    let sealed = do_encode("Meet me at nine.", Some(&KEY)).unwrap();
    let line = match do_output(false, Ok(sealed)) {
        Output::Line(line) => line,
        other => panic!("{:?}", other),
    };
    assert_eq!(do_decode(false, line.into_bytes(), Some(&KEY)), Ok("meet me at nine.".to_string()));
}

#[test]
fn pipeline_wrong_key_gives_other_text() {
    let sealed = do_encode("hello, world.", Some(&KEY)).unwrap();
    let other = [0x43u8; 16];
    assert_ne!(do_decode(true, sealed, Some(&other)), Ok("hello, world.".to_string()));
}

#[test]
fn do_output_bytes_to_file() {
    assert_eq!(
        do_output(true, Ok(vec![0x00, 0x40])),
        Output::File { name: "encoded.bin".to_string(), contents: vec![0x00, 0x40] }
    );
}

#[test]
fn do_output_text_to_file() {
    assert_eq!(
        do_output(true, Err("aba".to_string())),
        Output::File { name: "decoded.txt".to_string(), contents: b"aba".to_vec() }
    );
    assert_eq!(
        do_output(true, Err("é".to_string())),
        Output::File { name: "decoded.txt".to_string(), contents: vec![0xC3, 0xA9] }
    );
}

#[test]
fn do_output_bytes_to_line() {
    assert_eq!(do_output(false, Ok(vec![0x00, 0x40])), Output::Line("AEA".to_string()));
    assert_eq!(do_output(false, Ok(vec![])), Output::Line(String::new()));
    assert_eq!(do_output(false, Ok(vec![0xFB, 0xFF])), Output::Line("-_8".to_string()));
}

#[test]
fn do_output_text_to_line() {
    assert_eq!(do_output(false, Err("aba".to_string())), Output::Line("aba".to_string()));
}
