use wecom_gpt::codec::{check_signature, generate_signature, CryptoAgent, CryptoSource};

#[test]
fn test_check_signature() {
    assert_eq!(
        check_signature(
            "a8addbc99f8b3f51d2adbceb605d650b9a8940e2",
            "0",
            "c",
            "a",
            "b"
        ),
        true
    );
}

#[test]
fn test_encrypt_decrypt() {
    let key: String = String::from_utf8(Vec::from([42; 32])).unwrap();
    let agent = CryptoAgent::new(key.as_ref());
    let source = CryptoSource {
        text: "abcd".to_string(),
        receive_id: "xyz".to_string(),
    };
    let (enc, nonce) = agent.encrypt(&source).unwrap();
    let dec = agent.decrypt(enc.as_str(), nonce.as_str()).unwrap();
    assert_eq!(source, dec);
}

#[test]
fn test_signature_round_trip() {
    let sig = generate_signature("12345", "n0nce", "token", "payload");
    assert!(check_signature(
        sig.as_str(),
        "12345",
        "n0nce",
        "token",
        "payload"
    ));
    assert!(!check_signature(
        sig.as_str(),
        "12345",
        "n0nce",
        "token",
        "payload2"
    ));
}

#[test]
fn test_decrypt_rejects_tampering() {
    let key: String = String::from_utf8(Vec::from([7; 32])).unwrap();
    let agent = CryptoAgent::new(key.as_ref());
    let source = CryptoSource {
        text: "hello there".to_string(),
        receive_id: "corp".to_string(),
    };
    let (enc, nonce) = agent.encrypt(&source).unwrap();
    // Flip one character of the base64 ciphertext.
    let mut tampered: Vec<char> = enc.chars().collect();
    tampered[0] = if tampered[0] == 'A' { 'B' } else { 'A' };
    let tampered: String = tampered.into_iter().collect();
    assert!(agent.decrypt(tampered.as_str(), nonce.as_str()).is_err());
}

#[test]
fn test_decrypt_rejects_bad_base64() {
    let key: String = String::from_utf8(Vec::from([7; 32])).unwrap();
    let agent = CryptoAgent::new(key.as_ref());
    assert!(agent.decrypt("not base64!!", "also not@").is_err());
}

#[test]
fn test_from_b64_key_wants_32_bytes() {
    // 16 bytes only: refused.
    assert!(CryptoAgent::from_b64_key("AAAAAAAAAAAAAAAAAAAAAA==").is_none());
    assert!(CryptoAgent::from_b64_key("///not-base64///").is_none());
}
