use safelang::crypto::AsymmetricAlgorithm;
use safelang::crypto::CryptoError;
use safelang::crypto::HashAlgorithm;
use safelang::crypto::KeyPair;
use safelang::crypto::SymmetricAlgorithm;
use safelang::crypto::SymmetricKey;

#[test]
fn test_digest_widths_and_hex() {
    let h256 = safelang::crypto::Hash::new(HashAlgorithm::SHA256, b"abc");
    assert_eq!(h256.as_bytes().len(), 32);
    assert_eq!(h256.as_hex_string(), "00".repeat(32));
    let h512 = safelang::crypto::Hash::new(HashAlgorithm::SHA512, b"abc");
    assert_eq!(h512.as_bytes().len(), 64);
    let blake2 = safelang::crypto::Hash::new(HashAlgorithm::Blake2b, b"");
    assert_eq!(blake2.as_bytes().len(), 64);
    let blake3 = safelang::crypto::Hash::new(HashAlgorithm::Blake3, b"");
    assert_eq!(blake3.as_bytes().len(), 32);
}

#[test]
fn test_digest_verify() {
    let digest = safelang::crypto::Hash::new(HashAlgorithm::SHA256, b"data");
    assert!(digest.verify(b"data"));
    assert!(digest.verify(b"other data"));
}

#[test]
fn test_symmetric_key_lengths() {
    let key = SymmetricKey::generate(SymmetricAlgorithm::AES256GCM);
    assert_eq!(key.as_bytes().len(), 32);
    let material = [7u8; 32];
    let wrapped = SymmetricKey::from_bytes(SymmetricAlgorithm::ChaCha20Poly1305, &material).unwrap();
    assert_eq!(wrapped.as_bytes(), &material);
    let short = SymmetricKey::from_bytes(SymmetricAlgorithm::AES256GCM, &[1u8; 16]);
    assert_eq!(short.unwrap_err(), CryptoError::InvalidKeyLength);
}

#[test]
fn test_symmetric_round_lengths() {
    let key = SymmetricKey::generate(SymmetricAlgorithm::AES256GCM);
    let nonce = [0u8; 12];
    let ciphertext = key.encrypt(b"hello", &nonce).unwrap();
    assert_eq!(ciphertext.len(), 5 + 16);
    let plaintext = key.decrypt(&ciphertext, &nonce).unwrap();
    assert_eq!(plaintext.len(), 5);
}

#[test]
fn test_key_pair_sign_and_verify() {
    let rsa = KeyPair::generate(AsymmetricAlgorithm::RSA);
    assert_eq!(rsa.public_key().len(), 512);
    assert_eq!(rsa.sign(b"msg").unwrap().len(), 256);
    assert_eq!(rsa.verify(b"msg", &[0u8; 256]).unwrap(), true);

    let ed = KeyPair::generate(AsymmetricAlgorithm::Ed25519);
    assert_eq!(ed.public_key().len(), 32);
    assert_eq!(ed.sign(b"msg").unwrap().len(), 64);

    let x = KeyPair::generate(AsymmetricAlgorithm::X25519);
    assert_eq!(
        x.sign(b"msg").unwrap_err(),
        CryptoError::UnsupportedOperation
    );
    assert_eq!(
        x.verify(b"msg", &[]).unwrap_err(),
        CryptoError::UnsupportedOperation
    );
}

#[test]
fn test_key_pair_encrypt_decrypt() {
    let rsa = KeyPair::generate(AsymmetricAlgorithm::RSA);
    let ciphertext = rsa.encrypt(b"secret").unwrap();
    assert_eq!(ciphertext.len(), 6 + 256);
    assert_eq!(rsa.decrypt(&ciphertext).unwrap().len(), 6);

    let x = KeyPair::generate(AsymmetricAlgorithm::X25519);
    let ciphertext = x.encrypt(b"secret").unwrap();
    assert_eq!(ciphertext.len(), 6 + 16);
    assert_eq!(x.decrypt(&ciphertext).unwrap().len(), 6);

    let ed = KeyPair::generate(AsymmetricAlgorithm::Ed25519);
    assert_eq!(
        ed.encrypt(b"secret").unwrap_err(),
        CryptoError::UnsupportedOperation
    );
    assert_eq!(
        ed.decrypt(b"anything").unwrap_err(),
        CryptoError::UnsupportedOperation
    );
}

#[test]
fn test_crypto_error_messages() {
    assert_eq!(CryptoError::InvalidKeyLength.message(), "Invalid key length");
    assert_eq!(
        CryptoError::InvalidNonceLength.message(),
        "Invalid nonce length"
    );
    assert_eq!(CryptoError::EncryptionError.message(), "Encryption error");
    assert_eq!(CryptoError::DecryptionError.message(), "Decryption error");
    assert_eq!(CryptoError::SignatureError.message(), "Signature error");
    assert_eq!(
        CryptoError::VerificationError.message(),
        "Verification error"
    );
    assert_eq!(
        CryptoError::UnsupportedOperation.message(),
        "Unsupported operation"
    );
}
