//! The transport encryption of sessions.
use num_bigint::BigUint;
use sha2::Sha256;
use vasak_keyring::session_crypto::{
    decrypt, derive_key, encrypt, encrypt_with, negotiate, negotiate_with, pad_to_modulus,
    AES_BLOCK_BYTES, AES_KEY_BYTES, DH_BYTES, DH_GENERATOR, DH_PRIME,
};

fn is_probable_prime(candidate: &BigUint, rounds: u32) -> bool {
    let one = BigUint::from(1u32);
    let two = BigUint::from(2u32);

    if *candidate <= one {
        return false;
    }

    let n_minus_one = candidate - &one;
    let mut d = n_minus_one.clone();
    let mut r = 0u32;
    while &d % &two == BigUint::from(0u32) {
        d /= &two;
        r += 1;
    }

    for base in [2u32, 3, 5, 7, 11, 13, 17, 19, 23, 29, 31, 37]
        .into_iter()
        .take(rounds as usize)
    {
        let a = BigUint::from(base);
        let mut x = a.modpow(&d, candidate);

        if x == one || x == n_minus_one {
            continue;
        }

        let mut composite = true;
        for _ in 0..r - 1 {
            x = x.modpow(&two, candidate);
            if x == n_minus_one {
                composite = false;
                break;
            }
        }

        if composite {
            return false;
        }
    }

    true
}

#[test]
fn the_modulus_is_a_1024_bit_safe_prime() {
    let prime = BigUint::from_bytes_be(&DH_PRIME);

    assert_eq!(prime.bits(), 1024, "the group must be 1024-bit");
    assert!(is_probable_prime(&prime, 12), "the modulus must be prime");

    let sophie_germain = (&prime - BigUint::from(1u32)) / BigUint::from(2u32);
    assert!(
        is_probable_prime(&sophie_germain, 12),
        "RFC 2409 group 2 is a safe prime"
    );
}

#[test]
fn both_peers_derive_the_same_key() {
    let prime = BigUint::from_bytes_be(&DH_PRIME);
    let generator = BigUint::from(DH_GENERATOR);

    let client_private = BigUint::from(0x0f0e_0d0c_0b0a_0908u64);
    let client_public = generator.modpow(&client_private, &prime);

    let session = negotiate(&client_public.to_bytes_be()).expect("negotiation");

    let server_public = BigUint::from_bytes_be(&session.server_public);
    let client_shared = server_public.modpow(&client_private, &prime);

    assert_eq!(session.session_key, derive_key(&client_shared.to_bytes_be()));
    assert_eq!(session.session_key.len(), AES_KEY_BYTES);
}

#[test]
fn the_server_public_value_is_always_modulus_sized() {
    let prime = BigUint::from_bytes_be(&DH_PRIME);
    let generator = BigUint::from(DH_GENERATOR);
    let client_public = generator.modpow(&BigUint::from(7u32), &prime);

    let session = negotiate(&client_public.to_bytes_be()).expect("negotiation");
    assert_eq!(session.server_public.len(), DH_BYTES);
}

#[test]
fn derivation_pads_a_short_shared_secret() {
    let short = BigUint::from(1u32);
    let padded_material = pad_to_modulus(&short.to_bytes_be());

    assert_eq!(padded_material.len(), DH_BYTES);
    assert_eq!(padded_material[DH_BYTES - 1], 1);
    assert!(padded_material[..DH_BYTES - 1].iter().all(|b| *b == 0));

    let unpadded = hkdf::Hkdf::<Sha256>::new(None, &short.to_bytes_be());
    let mut wrong = vec![0u8; AES_KEY_BYTES];
    unpadded.expand(&[], &mut wrong).unwrap();

    assert_ne!(derive_key(&short.to_bytes_be()), wrong);

    let padded = hkdf::Hkdf::<Sha256>::new(None, &padded_material);
    let mut right = vec![0u8; AES_KEY_BYTES];
    padded.expand(&[], &mut right).unwrap();
    assert_eq!(derive_key(&short.to_bytes_be()), right);
}

#[test]
fn a_longer_value_is_not_cut() {
    let long = vec![7u8; DH_BYTES + 1];
    assert_eq!(pad_to_modulus(&long), long);
    assert_eq!(derive_key(&long).len(), AES_KEY_BYTES);
}

#[test]
fn degenerate_client_values_are_rejected() {
    let prime = BigUint::from_bytes_be(&DH_PRIME);

    for bad in [
        BigUint::from(0u32),
        BigUint::from(1u32),
        &prime - BigUint::from(1u32),
        prime.clone(),
    ] {
        assert!(
            negotiate(&bad.to_bytes_be()).is_err(),
            "should reject {bad}"
        );
    }
    assert_eq!(
        negotiate(&[]).err(),
        Some("client public value is out of range".to_string())
    );
    let last = &prime - BigUint::from(2u32);
    assert!(negotiate(&last.to_bytes_be()).is_ok());
    assert!(negotiate(&[0, 0, 2]).is_ok());
}

#[test]
fn a_small_exchange_has_exact_values() {
    // Private value 3 and client public value 4: 2^3 = 8 goes out, 4^3 = 64 is shared.
    let session = negotiate_with(&[4], &[3]).expect("negotiation");
    let mut public = vec![0u8; DH_BYTES];
    public[DH_BYTES - 1] = 8;
    assert_eq!(session.server_public, public);
    assert_eq!(session.session_key, derive_key(&[64]));
    assert_ne!(session.session_key, derive_key(&[8]));
}

#[test]
fn transport_round_trips() {
    let key = vec![0x24u8; AES_KEY_BYTES];
    let secret = b"correct horse battery staple";

    let (iv, ciphertext) = encrypt(&key, secret).expect("encrypt");

    assert_eq!(iv.len(), AES_BLOCK_BYTES);
    assert_ne!(&ciphertext[..], &secret[..], "must not be plaintext");
    assert_eq!(ciphertext.len() % AES_BLOCK_BYTES, 0, "PKCS7-padded");

    assert_eq!(decrypt(&key, &iv, &ciphertext).expect("decrypt"), secret);
}

#[test]
fn a_known_vector_of_the_cipher() {
    // NIST SP 800-38A, F.2.1: the first block under CBC-AES128.
    let key = [
        0x2b, 0x7e, 0x15, 0x16, 0x28, 0xae, 0xd2, 0xa6, 0xab, 0xf7, 0x15, 0x88, 0x09, 0xcf, 0x4f, 0x3c,
    ];
    let iv: Vec<u8> = (0u8..16).collect();
    let plain = [
        0x6b, 0xc1, 0xbe, 0xe2, 0x2e, 0x40, 0x9f, 0x96, 0xe9, 0x3d, 0x7e, 0x11, 0x73, 0x93, 0x17, 0x2a,
    ];
    let expected = [
        0x76, 0x49, 0xab, 0xac, 0x81, 0x19, 0xb2, 0x46, 0xce, 0xe9, 0x8e, 0x9b, 0x12, 0xe9, 0x19, 0x7d,
    ];
    let ciphertext = encrypt_with(&key, &plain, &iv).expect("encrypt");
    assert_eq!(ciphertext.len(), 32);
    assert_eq!(&ciphertext[..16], &expected[..]);
}

#[test]
fn an_empty_secret_survives_the_round_trip() {
    let key = vec![0x11u8; AES_KEY_BYTES];
    let (iv, ciphertext) = encrypt(&key, b"").expect("encrypt");

    assert_eq!(ciphertext.len(), AES_BLOCK_BYTES, "a full block of padding");
    assert_eq!(decrypt(&key, &iv, &ciphertext).expect("decrypt"), b"");
}

#[test]
fn the_wrong_key_or_iv_does_not_return_the_secret() {
    let key = vec![0x24u8; AES_KEY_BYTES];
    let (iv, ciphertext) = encrypt(&key, b"top secret").expect("encrypt");

    let other_key = vec![0x25u8; AES_KEY_BYTES];
    if let Ok(plaintext) = decrypt(&other_key, &iv, &ciphertext) {
        assert_ne!(plaintext, b"top secret");
    }

    let mut other_iv = iv.clone();
    other_iv[0] ^= 0xff;
    if let Ok(plaintext) = decrypt(&key, &other_iv, &ciphertext) {
        assert_ne!(plaintext, b"top secret");
    }
}

#[test]
fn a_mis_sized_key_or_iv_is_rejected() {
    assert!(encrypt(&[0u8; 32], b"x").is_err(), "AES-256 key must be rejected");
    assert!(
        decrypt(&[0u8; AES_KEY_BYTES], &[0u8; 12], &[0u8; 16]).is_err(),
        "GCM-sized IV"
    );
    assert_eq!(
        encrypt(&[0u8; 32], b"x").err(),
        Some("session key is 32 bytes, expected 16".to_string())
    );
    assert_eq!(
        decrypt(&[0u8; AES_KEY_BYTES], &[0u8; 12], &[0u8; 16]).err(),
        Some("expected a 16-byte IV, got 12".to_string())
    );
    assert_eq!(
        decrypt(&[0u8; AES_KEY_BYTES], &[0u8; 16], &[0u8; 15]).err(),
        Some("could not decrypt the secret".to_string())
    );
    assert_eq!(
        decrypt(&[0u8; AES_KEY_BYTES], &[0u8; 16], &[]).err(),
        Some("could not decrypt the secret".to_string())
    );
}
