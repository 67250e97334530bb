use aes_gcm::aead::{Aead, KeyInit};
use base64::Engine;
use layer8_interceptor::crypto::{generate_key_pair, key_pair_from_parts, CryptoError, Jwk, KeyUse};

fn b64(bytes: &[u8]) -> String {
    base64::engine::general_purpose::STANDARD.encode(bytes)
}

fn symmetric_key(raw: &[u8], ops: &[&str]) -> Jwk {
    Jwk {
        key_ops: ops.iter().map(|s| s.to_string()).collect(),
        key_type: "EC".to_string(),
        key_id: "shared_test".to_string(),
        crv: "secp256k1".to_string(),
        coordinate_x: b64(raw),
        coordinate_y: String::new(),
        coordinate_d: String::new(),
    }
}

#[test]
fn crypto_jwt_to_derivatives_test() {
    let (private_key, public_key) = generate_key_pair(KeyUse::Ecdh).unwrap();
    // able to change to public key and private key derivatives
    _ = private_key.public_key().unwrap();
    _ = private_key.secret_key().unwrap();
    _ = public_key.public_key().unwrap();
    assert!(public_key.secret_key().is_err());
}

#[test]
fn crypto_test_jwt_to_derivatives_test() {
    let (private_key, public_key) = generate_key_pair(KeyUse::Ecdh).unwrap();
    // able to change to public key and private key derivatives
    _ = private_key.public_key().unwrap();
    _ = private_key.secret_key().unwrap();
    _ = public_key.public_key().unwrap();
    assert!(public_key.secret_key().is_err());
}

#[test]
fn generated_pair_shape() {
    let (private_key, public_key) = generate_key_pair(KeyUse::Ecdh).unwrap();
    assert_eq!(private_key.key_ops, vec!["deriveKey".to_string()]);
    assert_eq!(public_key.key_ops, vec!["deriveKey".to_string()]);
    assert_eq!(private_key.key_type, "EC");
    assert_eq!(private_key.crv, "secp256k1");
    assert!(private_key.key_id.starts_with("priv_"));
    assert!(public_key.key_id.starts_with("pub_"));
    assert_eq!(&private_key.key_id[5..], &public_key.key_id[4..]);
    assert_eq!(private_key.coordinate_x, public_key.coordinate_x);
    assert_eq!(private_key.coordinate_y, public_key.coordinate_y);
    assert!(!private_key.coordinate_d.is_empty());
    assert!(public_key.coordinate_d.is_empty());
    assert_eq!(private_key.public_key().unwrap(), public_key.public_key().unwrap());
    assert_eq!(private_key.convert_to_key_pairs(), Ok(()));
    assert_eq!(public_key.convert_to_key_pairs(), Ok(()));
    let (signing, verifying) = generate_key_pair(KeyUse::Ecdsa).unwrap();
    assert_eq!(signing.key_ops, vec!["sign".to_string()]);
    assert_eq!(verifying.key_ops, vec!["verify".to_string()]);
}

#[test]
fn pair_from_known_parts() {
    let secp = secp256k1::Secp256k1::new();
    let secret = secp256k1::SecretKey::from_slice(&[7u8; 32]).unwrap();
    let point = secp256k1::PublicKey::from_secret_key(&secp, &secret).serialize_uncompressed();
    let id = [0u8; 16];
    let (private_key, public_key) = key_pair_from_parts(KeyUse::Ecdh, &id, &[7u8; 32], &point);
    assert_eq!(private_key.key_id, "priv_AAAAAAAAAAAAAAAAAAAAAA==");
    assert_eq!(public_key.key_id, "pub_AAAAAAAAAAAAAAAAAAAAAA==");
    assert_eq!(private_key.coordinate_x, b64(&point[1..33]));
    assert_eq!(private_key.coordinate_y, b64(&point[33..]));
    assert_eq!(private_key.coordinate_d, b64(&[7u8; 32]));
    assert_eq!(private_key.public_key().unwrap(), point.to_vec());
    assert_eq!(private_key.secret_key().unwrap(), vec![7u8; 32]);
}

#[test]
fn public_key_rejections() {
    let (_, mut public_key) = generate_key_pair(KeyUse::Ecdh).unwrap();
    let good_y = public_key.coordinate_y.clone();
    public_key.coordinate_x = "not base64!".to_string();
    assert_eq!(public_key.public_key(), Err(CryptoError::InvalidEncoding));
    public_key.coordinate_x = b64(&[1u8; 31]);
    assert_eq!(public_key.public_key(), Err(CryptoError::InvalidPublicKey));
    public_key.coordinate_x = b64(&[0u8; 32]);
    public_key.coordinate_y = b64(&[0u8; 32]);
    assert_eq!(public_key.public_key(), Err(CryptoError::InvalidPublicKey));
    assert_eq!(public_key.convert_to_key_pairs(), Err(CryptoError::InvalidPublicKey));
    public_key.coordinate_y = good_y;
    assert!(public_key.public_key().is_err());
}

#[test]
fn secret_key_rejections() {
    let (mut private_key, public_key) = generate_key_pair(KeyUse::Ecdh).unwrap();
    assert_eq!(public_key.secret_key(), Err(CryptoError::NotPrivate));
    private_key.coordinate_d = "%%%%".to_string();
    assert_eq!(private_key.secret_key(), Err(CryptoError::InvalidEncoding));
    private_key.coordinate_d = b64(&[0u8; 32]);
    assert_eq!(private_key.secret_key(), Err(CryptoError::InvalidSecretKey));
    assert_eq!(private_key.convert_to_key_pairs(), Err(CryptoError::InvalidSecretKey));
    private_key.coordinate_d = b64(&[1u8; 16]);
    assert_eq!(private_key.secret_key(), Err(CryptoError::InvalidSecretKey));
}

#[test]
fn shared_secret_matches_on_both_sides() {
    let (a_priv, a_pub) = generate_key_pair(KeyUse::Ecdh).unwrap();
    let (b_priv, b_pub) = generate_key_pair(KeyUse::Ecdh).unwrap();
    let a_shared = a_priv.get_ecdh_shared_secret(&b_pub).unwrap();
    let b_shared = b_priv.get_ecdh_shared_secret(&a_pub).unwrap();
    assert_eq!(a_shared.coordinate_x, b_shared.coordinate_x);
    assert_eq!(a_shared.key_ops, vec!["encrypt".to_string(), "decrypt".to_string()]);
    assert_eq!(a_shared.key_type, "EC");
    assert_eq!(a_shared.key_id, format!("shared_{}", &a_priv.key_id[5..]));
    assert!(a_shared.coordinate_y.is_empty());
    assert!(a_shared.coordinate_d.is_empty());
    assert_eq!(base64::engine::general_purpose::STANDARD.decode(&a_shared.coordinate_x).unwrap().len(), 32);
}

#[test]
fn shared_secret_known_value() {
    let secp = secp256k1::Secp256k1::new();
    let a = secp256k1::SecretKey::from_slice(&[3u8; 32]).unwrap();
    let b = secp256k1::SecretKey::from_slice(&[5u8; 32]).unwrap();
    let a_point = secp256k1::PublicKey::from_secret_key(&secp, &a).serialize_uncompressed();
    let b_point = secp256k1::PublicKey::from_secret_key(&secp, &b).serialize_uncompressed();
    let (a_priv, _) = key_pair_from_parts(KeyUse::Ecdh, &[1u8; 16], &[3u8; 32], &a_point);
    let (_, b_pub) = key_pair_from_parts(KeyUse::Ecdh, &[2u8; 16], &[5u8; 32], &b_point);
    let expected = secp256k1::ecdh::shared_secret_point(&secp256k1::PublicKey::from_slice(&b_point).unwrap(), &a);
    let shared = a_priv.get_ecdh_shared_secret(&b_pub).unwrap();
    assert_eq!(shared.coordinate_x, b64(&expected[..32]));
    let hashed = secp256k1::ecdh::SharedSecret::new(&secp256k1::PublicKey::from_slice(&b_point).unwrap(), &a);
    assert_ne!(shared.coordinate_x, b64(&hashed.secret_bytes()));
    assert_eq!(shared.key_id, format!("shared_{}", b64(&[1u8; 16])));
    assert_ne!(shared.coordinate_x, b64(&b_point[1..33]));
}

#[test]
fn derivation_capability_checks() {
    let (a_priv, a_pub) = generate_key_pair(KeyUse::Ecdh).unwrap();
    let (b_priv, b_pub) = generate_key_pair(KeyUse::Ecdh).unwrap();
    assert_eq!(a_priv.get_ecdh_shared_secret(&b_priv).unwrap_err(), CryptoError::PeerIsPrivate);
    let (_, verify_only) = generate_key_pair(KeyUse::Ecdsa).unwrap();
    assert_eq!(a_priv.get_ecdh_shared_secret(&verify_only).unwrap_err(), CryptoError::PeerMissingCapability);
    assert_eq!(a_pub.get_ecdh_shared_secret(&b_pub).unwrap_err(), CryptoError::NotPrivate);
    let (signer, _) = generate_key_pair(KeyUse::Ecdsa).unwrap();
    assert_eq!(signer.get_ecdh_shared_secret(&b_pub).unwrap_err(), CryptoError::MissingCapability);
    let mut broken = b_pub.clone();
    broken.coordinate_x = b64(&[9u8; 32]);
    broken.coordinate_y = b64(&[9u8; 32]);
    assert_eq!(a_priv.get_ecdh_shared_secret(&broken).unwrap_err(), CryptoError::InvalidPublicKey);
}

#[test]
fn round_trip_between_two_parties() {
    let (a_priv, a_pub) = generate_key_pair(KeyUse::Ecdh).unwrap();
    let (b_priv, b_pub) = generate_key_pair(KeyUse::Ecdh).unwrap();
    let a_shared = a_priv.get_ecdh_shared_secret(&b_pub).unwrap();
    let b_shared = b_priv.get_ecdh_shared_secret(&a_pub).unwrap();
    for plaintext in [&b""[..], &b"hello"[..], &[0xffu8, 0x00, 0xfe, 0x80][..], &[42u8; 1000][..]] {
        let sealed = a_shared.symmetric_encrypt(plaintext).unwrap();
        assert_eq!(sealed.len(), 12 + plaintext.len() + 16);
        assert_eq!(b_shared.symmetric_decrypt(&sealed).unwrap(), plaintext.to_vec());
    }
}

#[test]
fn encrypt_with_known_nonce() {
    let raw = [11u8; 32];
    let nonce = [5u8; 12];
    let key = symmetric_key(&raw, &["encrypt", "decrypt"]);
    let sealed = key.encrypt_with_nonce(&nonce, b"attack at dawn").unwrap();
    let cipher = aes_gcm::Aes256Gcm::new_from_slice(&raw).unwrap();
    let body = cipher.encrypt(aes_gcm::aead::Nonce::<aes_gcm::Aes256Gcm>::from_slice(&nonce), &b"attack at dawn"[..]).unwrap();
    let mut expected = nonce.to_vec();
    expected.extend_from_slice(&body);
    assert_eq!(sealed, expected);
    assert_ne!(&sealed[12..], &b"attack at dawn"[..]);
    assert_eq!(key.symmetric_decrypt(&sealed).unwrap(), b"attack at dawn".to_vec());
}

#[test]
fn capability_enforcement() {
    let raw = [1u8; 32];
    let decrypt_only = symmetric_key(&raw, &["decrypt"]);
    assert_eq!(decrypt_only.symmetric_encrypt(b"x"), Err(CryptoError::MissingCapability));
    let encrypt_only = symmetric_key(&raw, &["encrypt"]);
    let sealed = encrypt_only.symmetric_encrypt(b"x").unwrap();
    assert_eq!(encrypt_only.symmetric_decrypt(&sealed), Err(CryptoError::MissingCapability));
    assert_eq!(decrypt_only.symmetric_decrypt(&sealed).unwrap(), b"x".to_vec());
}

#[test]
fn nonce_uniqueness() {
    let key = symmetric_key(&[2u8; 32], &["encrypt", "decrypt"]);
    let first = key.symmetric_encrypt(b"same plaintext").unwrap();
    let second = key.symmetric_encrypt(b"same plaintext").unwrap();
    assert_ne!(first, second);
    assert_ne!(&first[..12], &second[..12]);
}

#[test]
fn tamper_detection() {
    let key = symmetric_key(&[3u8; 32], &["encrypt", "decrypt"]);
    let sealed = key.symmetric_encrypt(b"tamper").unwrap();
    for byte in 0..sealed.len() {
        for bit in 0..8 {
            let mut forged = sealed.clone();
            forged[byte] ^= 1 << bit;
            assert_eq!(key.symmetric_decrypt(&forged), Err(CryptoError::DecryptionFailed));
        }
    }
    let other = symmetric_key(&[4u8; 32], &["encrypt", "decrypt"]);
    assert_eq!(other.symmetric_decrypt(&sealed), Err(CryptoError::DecryptionFailed));
}

#[test]
fn decrypt_rejections() {
    let key = symmetric_key(&[3u8; 32], &["encrypt", "decrypt"]);
    assert_eq!(key.symmetric_decrypt(&[]), Err(CryptoError::EmptyCiphertext));
    assert_eq!(key.symmetric_decrypt(&[1, 2, 3, 4, 5]), Err(CryptoError::TruncatedCiphertext));
    assert_eq!(key.symmetric_decrypt(&[0u8; 20]), Err(CryptoError::TruncatedCiphertext));
    assert_eq!(key.symmetric_decrypt(&[0u8; 27]), Err(CryptoError::TruncatedCiphertext));
    assert_eq!(key.symmetric_decrypt(&[0u8; 28]), Err(CryptoError::DecryptionFailed));
    let empty_sealed = key.symmetric_encrypt(b"").unwrap();
    assert_eq!(empty_sealed.len(), 28);
    assert_eq!(key.symmetric_decrypt(&empty_sealed).unwrap(), Vec::<u8>::new());
    let short_key = symmetric_key(&[3u8; 16], &["encrypt", "decrypt"]);
    assert_eq!(short_key.symmetric_decrypt(&[0u8; 40]), Err(CryptoError::InvalidKeyLength));
    assert_eq!(short_key.symmetric_encrypt(b"x"), Err(CryptoError::InvalidKeyLength));
    let mut garbled = key.clone();
    garbled.coordinate_x = "***".to_string();
    assert_eq!(garbled.symmetric_decrypt(&[0u8; 40]), Err(CryptoError::InvalidEncoding));
    assert_eq!(garbled.symmetric_encrypt(b"x"), Err(CryptoError::InvalidEncoding));
}
