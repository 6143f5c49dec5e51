use fivebit::cipher::{decrypt, encrypt, KeyError};
use fivebit::keys::{gen_key, generate_key, key_text, parse_key};

#[test]
fn generated_key_has_sixteen_bytes() {
    for _ in 0..20 {
        assert_eq!(generate_key().len(), 16);
    }
}

#[test]
fn generated_keys_differ() {
    assert_ne!(generate_key(), generate_key());
    assert_ne!(gen_key(), gen_key());
}

#[test]
fn generated_key_is_not_constant_bytes() {
    let key = generate_key();
    let other = generate_key();
    assert!(key.iter().any(|b| *b != key[0]) || other.iter().any(|b| *b != other[0]));
}

#[test]
fn generated_key_text_parses() {
    for _ in 0..20 {
        let text = gen_key();
        assert_eq!(text.chars().count(), 22);
        let key = parse_key(&text).unwrap();
        assert_eq!(key.len(), 16);
        assert_eq!(key_text(&key), text);
    }
}

#[test]
fn key_text_of_zero_key() {
    assert_eq!(key_text(&[0u8; 16]), "AAAAAAAAAAAAAAAAAAAAAA");
    assert_eq!(parse_key("AAAAAAAAAAAAAAAAAAAAAA"), Ok(vec![0u8; 16]));
}

#[test]
fn key_text_uses_the_url_safe_alphabet() {
    assert_eq!(key_text(&[0xFF; 16]), "_____________________w");
    assert_eq!(key_text(&[0xFB; 16]), "-_v7-_v7-_v7-_v7-_v7-w");
    assert_eq!(parse_key("_____________________w"), Ok(vec![0xFF; 16]));
}

#[test]
fn parse_key_refuses_malformed_text() {
    assert_eq!(parse_key("!!!"), Err(KeyError::Malformed));
    assert_eq!(parse_key("AAAAAAAAAAAAAAAAAAAAAA=="), Err(KeyError::Malformed));
    assert_eq!(parse_key("+++++++++++++++++++++w"), Err(KeyError::Malformed));
    assert_eq!(parse_key("AAAAA"), Err(KeyError::Malformed));
}

#[test]
fn parse_key_refuses_other_lengths() {
    assert_eq!(parse_key(""), Err(KeyError::Length));
    assert_eq!(parse_key("AAAA"), Err(KeyError::Length));
    assert_eq!(parse_key("AAAAAAAAAAAAAAAAAAAA"), Err(KeyError::Length));
    assert_eq!(parse_key("AAAAAAAAAAAAAAAAAAAAAAA"), Err(KeyError::Length));
}

#[test]
fn parsed_key_works_with_the_cipher() {
    let key = parse_key(&gen_key()).unwrap();
    let data = vec![1u8, 2, 3, 4, 5];
    let sealed = encrypt(&data, &key).unwrap();
    assert_eq!(decrypt(&sealed, &key).unwrap(), data);
}
