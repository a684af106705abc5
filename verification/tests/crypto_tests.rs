use arp::crypto::{hex_encode, AuthSigner, Compressor, PacketCipher, SessionCipher};
use arp::Error;

#[test]
fn test_compress_decompress() {
    let original = b"Hello, World! This is a test message that should be compressed.";
    let compressed = Compressor::compress(original).unwrap();
    let decompressed = Compressor::decompress(&compressed).unwrap();

    assert_eq!(original.to_vec(), decompressed);
    assert!(!compressed.is_empty());
}

#[test]
fn test_compress_empty() {
    let original = b"";
    let compressed = Compressor::compress(original).unwrap();
    let decompressed = Compressor::decompress(&compressed).unwrap();

    assert_eq!(original.to_vec(), decompressed);
}

#[test]
fn test_encrypt_decrypt() {
    let secret = "test-secret";
    let original = b"hello secure world";
    let encrypted = PacketCipher::encrypt(original, secret).unwrap();
    let decrypted = PacketCipher::decrypt(&encrypted, secret).unwrap();
    assert_eq!(original.to_vec(), decrypted);
}

#[test]
fn test_session_cipher_encrypt_decrypt() {
    let cipher = SessionCipher::new("session-secret");
    let original = b"hello from session cipher";
    let encrypted = cipher.encrypt(original).unwrap();
    let decrypted = cipher.decrypt(&encrypted).unwrap();
    assert_eq!(original.to_vec(), decrypted);
}

#[test]
fn test_session_cipher_compatible_with_packet_cipher() {
    let secret = "shared-secret";
    let original = b"cross-compat test";
    let cipher = SessionCipher::new(secret);
    let encrypted = cipher.encrypt(original).unwrap();
    let decrypted = PacketCipher::decrypt(&encrypted, secret).unwrap();
    assert_eq!(original.to_vec(), decrypted);
}

#[test]
fn test_decrypt_with_wrong_secret() {
    let original = b"hello secure world";
    let encrypted = PacketCipher::encrypt(original, "secret-a").unwrap();
    assert!(PacketCipher::decrypt(&encrypted, "secret-b").is_err());
}

#[test]
fn test_hmac_sign_and_verify() {
    let token = "my-secret-token";
    let message = "1700000000";
    let sig = AuthSigner::sign(token, message);
    assert!(!sig.is_empty());
    assert_eq!(sig.len(), 64);
    assert!(AuthSigner::verify(token, message, &sig));
}

#[test]
fn test_hmac_rejects_wrong_token() {
    let sig = AuthSigner::sign("correct-token", "12345");
    assert!(!AuthSigner::verify("wrong-token", "12345", &sig));
}

#[test]
fn test_hmac_rejects_wrong_message() {
    let sig = AuthSigner::sign("token", "12345");
    assert!(!AuthSigner::verify("token", "99999", &sig));
}

#[test]
fn test_hmac_rejects_tampered_signature() {
    let mut sig = AuthSigner::sign("token", "12345");
    let last = sig.pop().unwrap();
    sig.push(if last == 'a' { 'b' } else { 'a' });
    assert!(!AuthSigner::verify("token", "12345", &sig));
}

#[test]
fn hmac_matches_the_rfc_4231_vector() {
    // HMAC-SHA256 vector of RFC 4231 with key "Jefe".
    let sig = AuthSigner::sign("Jefe", "what do ya want for nothing?");
    assert_eq!(
        sig,
        "5bdcc146bf60754e6a042426089575c75a003f089d2739839dec58b964ec3843"
    );
}

#[test]
fn hex_encoding_is_lower_case_two_digits_per_byte() {
    assert_eq!(hex_encode(&[]), "");
    assert_eq!(hex_encode(&[0x00, 0x0f, 0xa5, 0xff]), "000fa5ff");
}

#[test]
fn empty_secret_and_short_packet_are_refused() {
    match PacketCipher::encrypt(b"x", "") {
        Err(Error::Transport(m)) => assert_eq!(m, "encryption secret cannot be empty"),
        other => panic!("unexpected: {:?}", other),
    }
    match PacketCipher::decrypt(b"x", "") {
        Err(Error::Transport(m)) => assert_eq!(m, "encryption secret cannot be empty"),
        other => panic!("unexpected: {:?}", other),
    }
    match PacketCipher::decrypt(&[0u8; 11], "s") {
        Err(Error::Transport(m)) => assert_eq!(m, "encrypted payload too short"),
        other => panic!("unexpected: {:?}", other),
    }
    match PacketCipher::decrypt(&[0u8; 40], "s") {
        Err(Error::Transport(m)) => assert_eq!(m, "decrypt failed: aead::Error"),
        other => panic!("unexpected: {:?}", other),
    }
}

#[test]
fn sealed_packet_layout() {
    let p = PacketCipher::encrypt(b"abc", "k").unwrap();
    assert_eq!(p.len(), 12 + 3 + 16);
    let q = PacketCipher::encrypt(b"abc", "k").unwrap();
    assert_ne!(p[..12], q[..12]);
}

#[test]
fn garbage_does_not_decompress() {
    match Compressor::decompress(b"definitely not gzip") {
        Err(Error::Transport(m)) => assert!(m.starts_with("Decompression failed: ")),
        other => panic!("unexpected: {:?}", other),
    }
}
