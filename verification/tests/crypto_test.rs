use moy_sekret::{
    deserialize_envelope, generate_keypair, open_envelope, seal, serialize_envelope, ErrorKind,
};

#[test]
fn seal_then_open_restores_the_plaintext() {
    let keypair = generate_keypair();
    let plaintext = b"attack at dawn".to_vec();
    let envelope = seal(plaintext.as_slice(), &keypair);
    let opened = open_envelope(&envelope, &keypair).unwrap();
    assert_eq!(plaintext, opened);
}

#[test]
fn seal_then_open_restores_the_empty_plaintext() {
    let keypair = generate_keypair();
    let plaintext: Vec<u8> = Vec::new();
    let envelope = seal(plaintext.as_slice(), &keypair);
    let opened = open_envelope(&envelope, &keypair).unwrap();
    assert_eq!(plaintext, opened);
}

#[test]
fn sealing_actually_transforms_the_plaintext() {
    let keypair = generate_keypair();
    let plaintext = b"0123456789".to_vec();
    let envelope = seal(plaintext.as_slice(), &keypair);
    assert_eq!(envelope.nonce.len(), 24);
    assert_eq!(envelope.ciphertext.len(), plaintext.len() + 16);
    assert_ne!(&envelope.ciphertext[..plaintext.len()], plaintext.as_slice());
}

#[test]
fn sealing_twice_uses_fresh_nonces_and_differs() {
    let keypair = generate_keypair();
    let plaintext = b"same message".to_vec();
    let first = seal(plaintext.as_slice(), &keypair);
    let second = seal(plaintext.as_slice(), &keypair);
    assert_ne!(first.nonce, second.nonce);
    assert_ne!(first.ciphertext, second.ciphertext);
}

#[test]
fn opening_under_another_key_pair_fails() {
    let keypair = generate_keypair();
    let other = generate_keypair();
    let envelope = seal(b"secret".as_slice(), &keypair);
    let result = open_envelope(&envelope, &other);
    assert!(result.is_err());
    assert_eq!(result.unwrap_err().kind, ErrorKind::AuthenticationFailed);
}

#[test]
fn every_single_bit_flip_is_detected() {
    let keypair = generate_keypair();
    let plaintext = b"tamper-evident".to_vec();
    let envelope = seal(plaintext.as_slice(), &keypair);
    let serialized = serialize_envelope(&envelope);
    for byte_index in 0..serialized.len() {
        for bit in 0..8u8 {
            let mut tampered = serialized.clone();
            tampered[byte_index] ^= 1u8 << bit;
            match deserialize_envelope(tampered.as_slice()) {
                Ok(env) => match open_envelope(&env, &keypair) {
                    Ok(_) => assert!(
                        false,
                        "flipping bit {} of byte {} went undetected",
                        bit, byte_index
                    ),
                    Err(e) => assert_eq!(e.kind, ErrorKind::AuthenticationFailed),
                },
                Err(e) => assert_eq!(e.kind, ErrorKind::MalformedEnvelope),
            }
        }
    }
}
