use wolfpack::crypto::cipher::{
    decrypt, derive_nonce, derive_nonce_aes, derive_nonce_xchacha, detect_preferred_cipher,
    encrypt, Cipher, CipherError,
};
use wolfpack::crypto::keypair::{
    public_key_from_hex, public_key_to_hex, KeyError, KeyPair, StoredKeyPair,
};

#[test]
fn test_aes_roundtrip() {
    let key = [42u8; 32];
    let plaintext = b"Hello, wolfpack!";

    let (nonce, ciphertext) =
        encrypt(Cipher::Aes256Gcm, &key, "test-device", 1, plaintext).unwrap();

    let decrypted = decrypt(Cipher::Aes256Gcm, &key, &nonce, &ciphertext).unwrap();
    assert_eq!(decrypted, plaintext);
}

#[test]
fn test_chacha_roundtrip() {
    let key = [42u8; 32];
    let plaintext = b"Hello, wolfpack!";

    let (nonce, ciphertext) =
        encrypt(Cipher::XChaCha20Poly1305, &key, "test-device", 1, plaintext).unwrap();

    let decrypted = decrypt(Cipher::XChaCha20Poly1305, &key, &nonce, &ciphertext).unwrap();
    assert_eq!(decrypted, plaintext);
}

#[test]
fn test_nonce_determinism() {
    let n1 = derive_nonce_aes("device-a", 42);
    let n2 = derive_nonce_aes("device-a", 42);
    let n3 = derive_nonce_aes("device-a", 43);
    let n4 = derive_nonce_aes("device-b", 42);

    assert_eq!(n1, n2); // same inputs = same nonce
    assert_ne!(n1, n3); // different counter = different nonce
    assert_ne!(n1, n4); // different device = different nonce
}

#[test]
fn test_wrong_cipher_fails() {
    let key = [42u8; 32];
    let plaintext = b"Secret";

    let (nonce, ciphertext) = encrypt(Cipher::Aes256Gcm, &key, "test", 1, plaintext).unwrap();

    // Try to decrypt AES ciphertext with ChaCha - should fail
    // (nonce size mismatch will be caught first)
    let result = decrypt(Cipher::XChaCha20Poly1305, &key, &nonce, &ciphertext);
    assert!(result.is_err());
}

#[test]
fn test_detect_preferred_cipher() {
    let cipher = detect_preferred_cipher(true);
    assert!(cipher == Cipher::Aes256Gcm || cipher == Cipher::XChaCha20Poly1305);
    assert_eq!(detect_preferred_cipher(true), Cipher::Aes256Gcm);
    assert_eq!(detect_preferred_cipher(false), Cipher::XChaCha20Poly1305);
}

#[test]
fn cipher_selector_bytes() {
    assert_eq!(Cipher::from_byte(1), Some(Cipher::Aes256Gcm));
    assert_eq!(Cipher::from_byte(2), Some(Cipher::XChaCha20Poly1305));
    assert_eq!(Cipher::from_byte(0), None);
    assert_eq!(Cipher::from_byte(3), None);
    assert_eq!(Cipher::Aes256Gcm.to_byte(), 1);
    assert_eq!(Cipher::XChaCha20Poly1305.to_byte(), 2);
    assert_eq!(Cipher::Aes256Gcm.nonce_size(), 12);
    assert_eq!(Cipher::XChaCha20Poly1305.nonce_size(), 24);
}

#[test]
fn nonce_is_digest_prefix_then_big_endian_counter() {
    // SHA-256("abc") starts ba7816bf 8f01cfea 414140de 5dae2223 ...
    let aes = derive_nonce_aes("abc", 0x0102030405060708);
    assert_eq!(aes, [0xba, 0x78, 0x16, 0xbf, 1, 2, 3, 4, 5, 6, 7, 8]);

    let xchacha = derive_nonce_xchacha("abc", 1);
    assert_eq!(
        xchacha,
        [
            0xba, 0x78, 0x16, 0xbf, 0x8f, 0x01, 0xcf, 0xea, 0x41, 0x41, 0x40, 0xde, 0x5d, 0xae,
            0x22, 0x23, 0, 0, 0, 0, 0, 0, 0, 1
        ]
    );

    assert_eq!(derive_nonce(Cipher::Aes256Gcm, "abc", 0x0102030405060708), aes.to_vec());
    assert_eq!(derive_nonce(Cipher::XChaCha20Poly1305, "abc", 1), xchacha.to_vec());
}

#[test]
fn nonce_never_repeats_over_counters() {
    let mut seen = Vec::new();
    for counter in [0u64, 1, 2, 255, 256, 65535, 65536, u64::MAX - 1, u64::MAX] {
        let nonce = derive_nonce_xchacha("device-a", counter);
        assert!(!seen.contains(&nonce));
        seen.push(nonce);
    }
}

#[test]
fn ciphertext_is_plaintext_plus_tag() {
    let key = [7u8; 32];
    let plaintext = b"sixteen byte msg";
    for cipher in [Cipher::Aes256Gcm, Cipher::XChaCha20Poly1305] {
        let (nonce, ciphertext) = encrypt(cipher, &key, "d", 9, plaintext).unwrap();
        assert_eq!(nonce.len(), cipher.nonce_size());
        assert_eq!(ciphertext.len(), plaintext.len() + 16);
        assert_ne!(&ciphertext[..plaintext.len()], plaintext);
    }
}

#[test]
fn any_bit_flip_fails_decryption() {
    let key = [42u8; 32];
    let plaintext = b"Hello, wolfpack!";
    for cipher in [Cipher::Aes256Gcm, Cipher::XChaCha20Poly1305] {
        let (nonce, ciphertext) = encrypt(cipher, &key, "test-device", 1, plaintext).unwrap();

        for byte in 0..ciphertext.len() {
            for bit in 0..8 {
                let mut altered = ciphertext.clone();
                altered[byte] ^= 1 << bit;
                assert_eq!(
                    decrypt(cipher, &key, &nonce, &altered),
                    Err(CipherError::DecryptionFailed)
                );
            }
        }
        for byte in 0..nonce.len() {
            for bit in 0..8 {
                let mut altered = nonce.clone();
                altered[byte] ^= 1 << bit;
                assert_eq!(
                    decrypt(cipher, &key, &altered, &ciphertext),
                    Err(CipherError::DecryptionFailed)
                );
            }
        }
    }
}

#[test]
fn wrong_key_and_wrong_nonce_length_fail() {
    let key = [1u8; 32];
    let other = [2u8; 32];
    let (nonce, ciphertext) = encrypt(Cipher::Aes256Gcm, &key, "d", 1, b"x").unwrap();
    assert_eq!(
        decrypt(Cipher::Aes256Gcm, &other, &nonce, &ciphertext),
        Err(CipherError::DecryptionFailed)
    );
    assert_eq!(
        decrypt(Cipher::Aes256Gcm, &key, &nonce[..11], &ciphertext),
        Err(CipherError::DecryptionFailed)
    );
    assert_eq!(
        decrypt(Cipher::Aes256Gcm, &key, &nonce, &[]),
        Err(CipherError::DecryptionFailed)
    );
}

#[test]
fn test_keypair_generate() {
    let kp = KeyPair::generate();
    assert_eq!(kp.public_key().len(), 32);
    assert_eq!(kp.secret_key().len(), 32);
}

#[test]
fn test_shared_secret() {
    let alice = KeyPair::generate();
    let bob = KeyPair::generate();

    let alice_shared = alice.derive_shared_secret(&bob.public_key());
    let bob_shared = bob.derive_shared_secret(&alice.public_key());

    assert_eq!(alice_shared, bob_shared);
}

#[test]
fn test_keypair_roundtrip() {
    let original = KeyPair::generate();
    let stored = original.to_stored();

    let loaded = KeyPair::from_stored(&stored).unwrap();
    assert_eq!(original.public_key(), loaded.public_key());
    assert_eq!(original.secret_key(), loaded.secret_key());
}

#[test]
fn keypair_from_known_secret() {
    // RFC 7748, section 6.1: Alice's keys.
    let secret =
        public_key_from_hex("77076d0a7318a57d3c16c17251b26645df4c2f87ebc0992ab177fba51db92c2a")
            .unwrap();
    let pair = KeyPair::from_bytes(&secret);
    assert_eq!(pair.secret_key(), secret);
    assert_eq!(
        public_key_to_hex(&pair.public_key()),
        "8520f0098930a754748b7ddcb43ef75a0dbf3a0d26381af4eba4a98eaa9b4e6a"
    );
    let bob_public =
        public_key_from_hex("de9edb7d7b7dc1b4d35b61c2ece435373f8343c85b78674dadfc7e146f882b4f")
            .unwrap();
    assert_eq!(
        public_key_to_hex(&pair.derive_shared_secret(&bob_public)),
        "4a5d9d5ba4ce2de1728e3bf480350f25e07e21c947d19e3376f09b3c1e161742"
    );
}

#[test]
fn hex_keys() {
    let key: [u8; 32] = core::array::from_fn(|i| i as u8);
    let text = public_key_to_hex(&key);
    assert_eq!(text, "000102030405060708090a0b0c0d0e0f101112131415161718191a1b1c1d1e1f");
    assert_eq!(public_key_from_hex(&text), Ok(key));
    assert_eq!(public_key_from_hex(&text.to_uppercase()), Ok(key));
    assert_eq!(public_key_from_hex("zz"), Err(KeyError::InvalidHex));
    assert_eq!(public_key_from_hex("abc"), Err(KeyError::InvalidHex));
    assert_eq!(public_key_from_hex("abcd"), Err(KeyError::WrongLength));
    assert_eq!(public_key_from_hex(""), Err(KeyError::WrongLength));
}

#[test]
fn stored_keypair_errors() {
    let bad = StoredKeyPair { secret: "not hex".to_string(), public: String::new() };
    assert!(matches!(KeyPair::from_stored(&bad), Err(KeyError::InvalidHex)));
    let short = StoredKeyPair { secret: "00ff".to_string(), public: String::new() };
    assert!(matches!(KeyPair::from_stored(&short), Err(KeyError::WrongLength)));
}

#[test]
fn group_secret_of_a_solo_device() {
    let pair = KeyPair::generate();
    let own = pair.derive_shared_secret(&pair.public_key());
    assert_eq!(pair.derive_group_secret(&[]), own);
    assert_eq!(pair.derive_group_secret(&[("self".to_string(), pair.public_key())]), own);
}

#[test]
fn group_secret_is_xor_and_ignores_order() {
    let a = KeyPair::generate();
    let b = KeyPair::generate();
    let c = KeyPair::generate();
    let with_b = a.derive_shared_secret(&b.public_key());
    let with_c = a.derive_shared_secret(&c.public_key());
    let mut expected = [0u8; 32];
    for i in 0..32 {
        expected[i] = with_b[i] ^ with_c[i];
    }
    let forward = a.derive_group_secret(&[
        ("b".to_string(), b.public_key()),
        ("c".to_string(), c.public_key()),
    ]);
    let backward = a.derive_group_secret(&[
        ("c".to_string(), c.public_key()),
        ("b".to_string(), b.public_key()),
    ]);
    assert_eq!(forward, expected);
    assert_eq!(backward, expected);
}

#[test]
fn two_devices_that_list_each_other_only_agree() {
    let a = KeyPair::generate();
    let b = KeyPair::generate();
    let at_a = a.derive_group_secret(&[("b".to_string(), b.public_key())]);
    let at_b = b.derive_group_secret(&[("a".to_string(), a.public_key())]);
    assert_eq!(at_a, at_b);
}
