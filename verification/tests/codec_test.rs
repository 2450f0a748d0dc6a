use moy_sekret::{deserialize_envelope, serialize_envelope, Envelope, ErrorKind};

fn sample_envelope() -> Envelope {
    let nonce: Vec<u8> = (0u8..24u8).collect();
    Envelope {
        nonce,
        ciphertext: vec![9u8, 8u8, 7u8],
    }
}

#[test]
fn serialization_layout_is_nonce_then_le_length_then_ciphertext() {
    let envelope = sample_envelope();
    let bytes = serialize_envelope(&envelope);
    let mut expected: Vec<u8> = (0u8..24u8).collect();
    expected.extend_from_slice(&[3u8, 0, 0, 0, 0, 0, 0, 0]);
    expected.extend_from_slice(&[9u8, 8u8, 7u8]);
    assert_eq!(bytes, expected);
}

#[test]
fn deserialization_restores_the_envelope() {
    let envelope = sample_envelope();
    let bytes = serialize_envelope(&envelope);
    let restored = deserialize_envelope(bytes.as_slice()).unwrap();
    assert_eq!(restored.nonce, envelope.nonce);
    assert_eq!(restored.ciphertext, envelope.ciphertext);
}

#[test]
fn an_empty_ciphertext_round_trips() {
    let envelope = Envelope {
        nonce: vec![7u8; 24],
        ciphertext: Vec::new(),
    };
    let bytes = serialize_envelope(&envelope);
    assert_eq!(bytes.len(), 32);
    let restored = deserialize_envelope(bytes.as_slice()).unwrap();
    assert_eq!(restored.nonce, vec![7u8; 24]);
    assert_eq!(restored.ciphertext, Vec::<u8>::new());
}

#[test]
fn a_buffer_shorter_than_the_header_is_malformed() {
    let err = deserialize_envelope(&[0u8; 31]).unwrap_err();
    assert_eq!(err.kind, ErrorKind::MalformedEnvelope);
    assert_eq!("Could not deserialize encrypted data", err.to_message());
}

#[test]
fn a_wrong_length_prefix_is_malformed() {
    let envelope = sample_envelope();
    let mut bytes = serialize_envelope(&envelope);
    bytes[24] = 200;
    let err = deserialize_envelope(bytes.as_slice()).unwrap_err();
    assert_eq!(err.kind, ErrorKind::MalformedEnvelope);
}

#[test]
fn a_truncated_ciphertext_is_malformed() {
    let envelope = sample_envelope();
    let mut bytes = serialize_envelope(&envelope);
    bytes.pop();
    let err = deserialize_envelope(bytes.as_slice()).unwrap_err();
    assert_eq!(err.kind, ErrorKind::MalformedEnvelope);
}
