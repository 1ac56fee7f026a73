use aes_gcm::aead::Aead;
use aes_gcm::KeyInit;
use sensor_central::pairing::{pin_be_bytes, seal_pin, setup_pin, Key, MAX_PIN};

const TEST_KEY: [u8; 16] = [0, 1, 2, 3, 4, 5, 6, 7, 8, 9, 10, 11, 12, 13, 14, 15];
const TEST_NONCE: [u8; 12] = [16, 17, 18, 19, 20, 21, 22, 23, 24, 25, 26, 27];

/// AES-128-GCM of the 4-byte big-endian PIN 123456 under the fixed key and
/// nonce above: ciphertext followed by the 16-byte tag.
const EXPECTED_SEALED: [u8; 20] = [
    196, 47, 225, 239, 165, 87, 70, 108, 170, 69, 151, 9, 184, 203, 166, 199, 13, 56, 28, 111,
];

#[test]
fn pin_encodes_as_big_endian_bytes() {
    assert_eq!(pin_be_bytes(123456), vec![0x00, 0x01, 0xE2, 0x40]);
    assert_eq!(pin_be_bytes(0), vec![0, 0, 0, 0]);
    assert_eq!(pin_be_bytes(999_999), vec![0x00, 0x0F, 0x42, 0x3F]);
}

#[test]
fn sealing_matches_the_known_vector() {
    let sealed = seal_pin(&TEST_KEY, &TEST_NONCE, 123456).unwrap();
    assert_eq!(sealed, EXPECTED_SEALED.to_vec());
    // The ciphertext is not the plaintext riding along unencrypted.
    assert_ne!(&sealed[..4], &[0x00, 0x01, 0xE2, 0x40]);
}

#[test]
fn sealed_pin_decrypts_back_to_the_pin() {
    let sealed = seal_pin(&TEST_KEY, &TEST_NONCE, 123456).unwrap();
    let cipher = aes_gcm::Aes128Gcm::new_from_slice(&TEST_KEY).unwrap();
    let nonce = aes_gcm::Nonce::<aes_gcm::aead::consts::U12>::try_from(&TEST_NONCE[..]).unwrap();
    let plaintext = cipher.decrypt(&nonce, sealed.as_slice()).unwrap();
    assert_eq!(plaintext, vec![0x00, 0x01, 0xE2, 0x40]);
}

#[test]
fn tampered_ciphertext_fails_authentication() {
    let mut sealed = seal_pin(&TEST_KEY, &TEST_NONCE, 123456).unwrap();
    sealed[0] ^= 1;
    let cipher = aes_gcm::Aes128Gcm::new_from_slice(&TEST_KEY).unwrap();
    let nonce = aes_gcm::Nonce::<aes_gcm::aead::consts::U12>::try_from(&TEST_NONCE[..]).unwrap();
    assert!(cipher.decrypt(&nonce, sealed.as_slice()).is_err());
}

#[test]
fn setup_pin_produces_coherent_material() {
    let key = Key::from_bytes(&TEST_KEY);
    let material = setup_pin(&key);
    assert_eq!(material.nonce.len(), 12);
    assert!(material.pin <= MAX_PIN);
    assert_eq!(material.ciphertext.len(), 20);
    // The peripheral, holding the same key, recovers exactly this PIN.
    let cipher = aes_gcm::Aes128Gcm::new_from_slice(&TEST_KEY).unwrap();
    let nonce =
        aes_gcm::Nonce::<aes_gcm::aead::consts::U12>::try_from(material.nonce.as_slice()).unwrap();
    let plaintext = cipher.decrypt(&nonce, material.ciphertext.as_slice()).unwrap();
    assert_eq!(plaintext, pin_be_bytes(material.pin));
}

#[test]
fn short_key_bytes_are_zero_padded() {
    let key = Key::from_bytes(&[1, 2, 3, 4]);
    assert_eq!(key.array, vec![1, 2, 3, 4, 0, 0, 0, 0, 0, 0, 0, 0, 0, 0, 0, 0]);
    let key = Key::from_bytes(&[9; 20]);
    assert_eq!(key.array, vec![9; 16]);
}
