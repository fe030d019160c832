use clipsync::config::PeerInfo;
use clipsync::pairing::{
    derive_key, encrypt_serialized, find_peer, find_peer_mut, generate_pairing_code, is_peer_allowed,
    is_valid_pairing_code, pairing_code_text, Cipher, WireMessage,
};

fn bytes_of_hex(text: &str) -> Vec<u8> {
    hex::decode(text).unwrap()
}

fn peer(id: &str, name: &str) -> PeerInfo {
    PeerInfo {
        name: name.to_string(),
        id: id.to_string(),
        address: "192.168.0.2".to_string(),
        port: 4000,
        last_seen: 7,
    }
}

#[test]
fn test_pairing_code_format() {
    let code = generate_pairing_code();
    assert_eq!(code.len(), 6);
    assert!(code.chars().all(|c| c.is_ascii_digit()));
    assert!(is_valid_pairing_code(&code));
}

#[test]
fn test_invalid_pairing_code() {
    assert!(!is_valid_pairing_code("12345"));
    assert!(!is_valid_pairing_code("abcdef"));
    assert!(!is_valid_pairing_code(""));
}

#[test]
fn test_key_derivation_deterministic() {
    let key1 = derive_key("123456");
    let key2 = derive_key("123456");
    assert_eq!(key1, key2);
}

#[test]
fn test_key_derivation_different() {
    let key1 = derive_key("123456");
    let key2 = derive_key("654321");
    assert_ne!(key1, key2);
}

#[test]
fn test_encrypt_decrypt_roundtrip() {
    let cipher = Cipher::from_pairing_code("123456");
    let plaintext = b"Hello, ClipSync!";
    let encrypted = cipher.encrypt(plaintext).unwrap();
    let decrypted = cipher.decrypt(&encrypted).unwrap();
    assert_eq!(decrypted, plaintext);
}

#[test]
fn test_encrypt_produces_different_ciphertexts() {
    let cipher = Cipher::from_pairing_code("123456");
    let plaintext = b"test";
    let ct1 = cipher.encrypt(plaintext).unwrap();
    let ct2 = cipher.encrypt(plaintext).unwrap();
    // Nonces should differ, so ciphertexts differ
    assert_ne!(ct1, ct2);
}

#[test]
fn test_decrypt_with_wrong_key_fails() {
    let cipher_a = Cipher::from_pairing_code("111111");
    let cipher_b = Cipher::from_pairing_code("222222");
    let encrypted = cipher_a.encrypt(b"secret").unwrap();
    assert!(cipher_b.decrypt(&encrypted).is_err());
}

#[test]
fn test_wire_message_roundtrip() {
    let cipher = Cipher::from_pairing_code("999999");
    let msg = WireMessage::new("clipboard", b"payload data".to_vec());
    let encrypted = msg.to_encrypted(&cipher).unwrap();
    let decrypted = WireMessage::from_encrypted(&encrypted, &cipher).unwrap();
    assert_eq!(decrypted.msg_type, "clipboard");
    assert_eq!(decrypted.payload, b"payload data");
}

#[test]
fn test_wire_message_tampering_detected() {
    let cipher = Cipher::from_pairing_code("999999");
    let msg = WireMessage::new("clipboard", b"payload".to_vec());
    let mut encrypted = msg.to_encrypted(&cipher).unwrap();
    // Flip a bit in the ciphertext
    if encrypted.len() > 20 {
        encrypted[20] ^= 1;
    }
    assert!(WireMessage::from_encrypted(&encrypted, &cipher).is_err());
}

#[test]
fn codes_have_leading_zeros() {
    assert_eq!(pairing_code_text(0), "000000");
    assert_eq!(pairing_code_text(42), "000042");
    assert_eq!(pairing_code_text(123_456), "123456");
    assert_eq!(pairing_code_text(999_999), "999999");
}

#[test]
fn a_code_is_six_ascii_digits() {
    assert!(is_valid_pairing_code("000000"));
    assert!(is_valid_pairing_code("908172"));
    assert!(!is_valid_pairing_code("1234567"));
    assert!(!is_valid_pairing_code("12345 "));
    assert!(!is_valid_pairing_code("+12345"));
    assert!(!is_valid_pairing_code("１２３４５６"));
    assert!(!is_valid_pairing_code("ää"));
}

#[test]
fn the_key_of_a_code_is_its_hkdf() {
    assert_eq!(
        derive_key("123456").to_vec(),
        bytes_of_hex("8f371ff84ba36e4be2822bd571f014632023bc7af43cb5337aa9575e967eb850")
    );
}

#[test]
fn a_frame_is_nonce_ciphertext_and_tag() {
    let cipher = Cipher::from_key(&derive_key("123456"));
    let nonce = [0u8, 1, 2, 3, 4, 5, 6, 7, 8, 9, 10, 11];
    let frame = cipher.encrypt_with_nonce(&nonce, b"Hello, ClipSync!").unwrap();
    assert_eq!(
        frame,
        bytes_of_hex(
            "000102030405060708090a0ba0952f19804c32cb393dfe67d4beac9d9dba82bb74cfc06be5b39ff1e3a890cd"
        )
    );
    assert_eq!(cipher.decrypt(&frame).unwrap(), b"Hello, ClipSync!");
    assert_eq!(cipher.duplicate().decrypt(&frame).unwrap(), b"Hello, ClipSync!");
}

#[test]
fn a_frame_is_longer_by_nonce_and_tag() {
    let cipher = Cipher::from_pairing_code("123456");
    assert_eq!(cipher.encrypt(b"").unwrap().len(), 28);
    assert_eq!(cipher.encrypt(b"abc").unwrap().len(), 31);
}

#[test]
fn decryption_errors_have_their_texts() {
    let cipher = Cipher::from_pairing_code("123456");
    assert_eq!(cipher.decrypt(&[0u8; 27]).unwrap_err(), "Wire data too short for decryption");
    assert_eq!(cipher.decrypt(&[0u8; 28]).unwrap_err(), "Decryption error: aead::Error");
}

#[test]
fn a_message_is_an_array_of_two_in_messagepack() {
    let cipher = Cipher::from_pairing_code("123456");
    let frame = WireMessage::new("hello", vec![1, 200]).to_encrypted(&cipher).unwrap();
    assert_eq!(
        cipher.decrypt(&frame).unwrap(),
        [0x92, 0xa5, b'h', b'e', b'l', b'l', b'o', 0x92, 0x01, 0xcc, 0xc8]
    );
    assert_eq!(frame.len(), 12 + 11 + 16);
}

#[test]
fn a_payload_may_come_as_a_byte_string() {
    let cipher = Cipher::from_pairing_code("123456");
    let packed = [0x92, 0xa5, b'h', b'e', b'l', b'l', b'o', 0xc4, 2, 1, 200];
    let frame = cipher.encrypt(&packed).unwrap();
    let message = WireMessage::from_encrypted(&frame, &cipher).unwrap();
    assert_eq!(message.msg_type, "hello");
    assert_eq!(message.payload, vec![1, 200]);
}

#[test]
fn a_message_that_is_no_messagepack_is_refused() {
    let cipher = Cipher::from_pairing_code("123456");
    let frame = cipher.encrypt(b"\xc0").unwrap();
    let error = WireMessage::from_encrypted(&frame, &cipher).unwrap_err();
    assert!(error.starts_with("MessagePack deserialize error: "));
}

#[test]
fn a_cloned_message_is_the_same() {
    let message = WireMessage::new("clipboard", vec![1, 2, 3]);
    let copy = message.clone();
    assert_eq!(copy.msg_type, "clipboard");
    assert_eq!(copy.payload, vec![1, 2, 3]);
}

#[test]
fn listed_peers_are_allowed() {
    let peers = vec![peer("a", "one"), peer("b", "two"), peer("b", "three")];
    assert!(is_peer_allowed(&peers, "a"));
    assert!(is_peer_allowed(&peers, "b"));
    assert!(!is_peer_allowed(&peers, "c"));
    assert!(!is_peer_allowed(&[], "a"));
}

#[test]
fn the_first_peer_with_an_id_is_found() {
    let mut peers = vec![peer("a", "one"), peer("b", "two"), peer("b", "three")];
    assert_eq!(find_peer(&peers, "b").unwrap().name, "two");
    assert!(find_peer(&peers, "c").is_none());
    find_peer_mut(&mut peers, "b").unwrap().name = "changed".to_string();
    assert!(find_peer_mut(&mut peers, "c").is_none());
    assert_eq!(peers[0].name, "one");
    assert_eq!(peers[1].name, "changed");
    assert_eq!(peers[2].name, "three");
}

#[test]
fn an_unserialized_message_is_not_encrypted() {
    let cipher = Cipher::from_pairing_code("123456");
    assert_eq!(
        encrypt_serialized(Err("no memory".to_string()), &cipher).unwrap_err(),
        "MessagePack serialize error: no memory"
    );
    let frame = encrypt_serialized(Ok(vec![1, 2]), &cipher).unwrap();
    assert_eq!(cipher.decrypt(&frame).unwrap(), vec![1, 2]);
}
