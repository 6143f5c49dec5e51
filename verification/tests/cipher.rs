use fivebit::cipher::{decrypt, encrypt, KeyError, KEY_LEN, MAX_CIPHER_LEN};
use fivebit::codec::encode;

const ZERO_KEY: [u8; 16] = [0; 16];

fn sample_key() -> Vec<u8> {
    (0..16u8).map(|i| i.wrapping_mul(17).wrapping_add(3)).collect()
}

#[test]
fn key_length_is_sixteen() {
    assert_eq!(KEY_LEN, 16);
    assert_eq!(MAX_CIPHER_LEN, (u32::MAX / 8) as usize);
}

#[test]
fn encrypt_then_decrypt_two_bytes_under_zero_key() {
    let packed = encode("ab");
    assert_eq!(packed, vec![0x00, 0x40]);
    let sealed = encrypt(&packed, &ZERO_KEY).unwrap();
    assert_eq!(sealed.len(), 2);
    assert_eq!(decrypt(&sealed, &ZERO_KEY).unwrap(), packed);
}

#[test]
fn encrypt_short_key_is_refused() {
    let key = [0u8; 15];
    assert_eq!(encrypt(&[0x00, 0x40], &key), Err(KeyError::Length));
    assert_eq!(decrypt(&[0x00, 0x40], &key), Err(KeyError::Length));
}

#[test]
fn encrypt_other_key_lengths_are_refused() {
    for n in [0usize, 1, 8, 15, 17, 24, 32] {
        let key = vec![7u8; n];
        assert_eq!(encrypt(&[1, 2, 3], &key), Err(KeyError::Length));
        assert_eq!(decrypt(&[1, 2, 3], &key), Err(KeyError::Length));
    }
}

#[test]
fn encrypt_keeps_the_length() {
    let key = sample_key();
    for n in 0..40usize {
        let data: Vec<u8> = (0..n).map(|i| (i * 37 + 11) as u8).collect();
        let sealed = encrypt(&data, &key).unwrap();
        assert_eq!(sealed.len(), n);
        assert_eq!(decrypt(&data, &key).unwrap().len(), n);
    }
}

#[test]
fn decrypt_inverts_encrypt() {
    let key = sample_key();
    for n in 0..40usize {
        let data: Vec<u8> = (0..n).map(|i| (i * 101 + 5) as u8).collect();
        let sealed = encrypt(&data, &key).unwrap();
        assert_eq!(decrypt(&sealed, &key).unwrap(), data);
    }
}

#[test]
fn encrypt_inverts_decrypt() {
    let key = sample_key();
    let data = vec![9u8, 8, 7, 6, 5, 4, 3, 2, 1, 0];
    let opened = decrypt(&data, &key).unwrap();
    assert_eq!(encrypt(&opened, &key).unwrap(), data);
}

#[test]
fn encrypt_changes_the_buffer() {
    let data = vec![0u8; 12];
    let sealed = encrypt(&data, &ZERO_KEY).unwrap();
    assert_ne!(sealed, data);
    let opened = decrypt(&data, &ZERO_KEY).unwrap();
    assert_ne!(opened, data);
    assert_ne!(opened, sealed);
}

#[test]
fn encrypt_is_a_function_of_buffer_and_key() {
    let key = sample_key();
    let data = b"the same bytes".to_vec();
    assert_eq!(encrypt(&data, &key), encrypt(&data, &key));
    assert_eq!(decrypt(&data, &key), decrypt(&data, &key));
}

#[test]
fn encrypt_pins_the_ciphertext() {
    let key: Vec<u8> = vec![
        0x2B, 0x7E, 0x15, 0x16, 0x28, 0xAE, 0xD2, 0xA6, 0xAB, 0xF7, 0x15, 0x88, 0x09, 0xCF, 0x4F,
        0x3C,
    ];
    let sealed = encrypt(&[0xab, 0xcd, 0xef], &key).unwrap();
    assert_eq!(sealed, vec![0xd8, 0x8a, 0x0d]);
    assert_eq!(decrypt(&[0xd8, 0x8a, 0x0d], &key), Ok(vec![0xab, 0xcd, 0xef]));
}

#[test]
fn different_keys_give_different_ciphertexts() {
    let data = encode("attack at dawn");
    let other: Vec<u8> = (0..16u8).collect();
    let first = encrypt(&data, &ZERO_KEY).unwrap();
    let second = encrypt(&data, &other).unwrap();
    assert_ne!(first, second);
    assert_ne!(decrypt(&first, &other).unwrap(), data);
}

#[test]
fn different_buffers_give_different_ciphertexts() {
    let key = sample_key();
    let first = encrypt(&[0, 0, 0, 0], &key).unwrap();
    let second = encrypt(&[0, 0, 0, 1], &key).unwrap();
    assert_ne!(first, second);
}

#[test]
fn empty_buffer_stays_empty() {
    assert_eq!(encrypt(&[], &ZERO_KEY), Ok(vec![]));
    assert_eq!(decrypt(&[], &ZERO_KEY), Ok(vec![]));
}

#[test]
fn one_byte_round_trip() {
    for b in [0u8, 1, 0x80, 0xFF] {
        let sealed = encrypt(&[b], &ZERO_KEY).unwrap();
        assert_eq!(sealed.len(), 1);
        assert_eq!(decrypt(&sealed, &ZERO_KEY).unwrap(), vec![b]);
    }
}

#[test]
fn too_long_buffer_is_rejected() {
    let data = vec![0u8; MAX_CIPHER_LEN + 1];
    assert_eq!(encrypt(&data, &ZERO_KEY), Err(KeyError::Rejected));
    assert_eq!(decrypt(&data, &ZERO_KEY), Err(KeyError::Rejected));
    assert_eq!(encrypt(&data, &[0u8; 3]), Err(KeyError::Length));
}
