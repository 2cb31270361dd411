use ring_compat::signature::ed25519;
use sutera_lib::identity::SuteraIdentity;
use sutera_lib::identity::SuteraIdentityKind;
use sutera_lib::identity::SuteraIdentityStringParseError;
use sutera_lib::message::SuteraMessageDeserializeError;
use sutera_lib::message::SuteraMessageSigningError;
use sutera_lib::message::SuteraSignedMessage;
use sutera_lib::message::SuteraSignedMessagePayload;
use sutera_lib::message::SuteraSigningKey;

fn test_signed_message() -> SuteraSignedMessage {
    let seed: [u8; 32] = [7; 32];
    let secret = ed25519::SigningKey::from_bytes(&seed);

    let identity = SuteraIdentity {
        kind: SuteraIdentityKind::User,
        display_name: Some("see2et".to_string()),
        pub_signature: secret.verifying_key().0,
    };

    let message = "Hello, Sutera!";
    SuteraSignedMessage::new(identity, message.to_string(), SuteraSigningKey { seed }).unwrap()
}

#[test]
fn sign_message() {
    let mut signed_message = test_signed_message();

    assert!(signed_message.verify());

    signed_message.message = "Hello, Sutera?".to_string();
    assert!(!signed_message.verify());
}

#[test]
fn signed_message_serializable() {
    let signed_message = test_signed_message();

    let payload = signed_message.serialize();
    let serialized = serde_json::to_string(&(
        payload.author.clone(),
        payload.message.clone(),
        payload.signature.clone(),
    ))
    .unwrap();
    let (author, message, signature): (String, String, String) =
        serde_json::from_str(&serialized).unwrap();
    let deserialized = SuteraSignedMessage::deserialize(SuteraSignedMessagePayload {
        author,
        message,
        signature,
    })
    .unwrap();

    assert_eq!(signed_message, deserialized);
}

#[test]
fn sign_empty_message() {
    let seed: [u8; 32] = [9; 32];
    let secret = ed25519::SigningKey::from_bytes(&seed);
    let identity = SuteraIdentity {
        kind: SuteraIdentityKind::User,
        display_name: None,
        pub_signature: secret.verifying_key().0,
    };
    let signed =
        SuteraSignedMessage::new(identity, String::new(), SuteraSigningKey { seed }).unwrap();
    assert!(signed.verify());
}

#[test]
fn signing_key_mismatch() {
    let seed: [u8; 32] = [7; 32];
    let identity = SuteraIdentity {
        kind: SuteraIdentityKind::User,
        display_name: None,
        pub_signature: [0; 32],
    };
    let result = SuteraSignedMessage::new(
        identity,
        "Hello, Sutera!".to_string(),
        SuteraSigningKey { seed },
    );
    assert_eq!(result, Err(SuteraMessageSigningError::SigningKeyMismatch));
}

#[test]
fn verify_rejects_forged_signature() {
    let signed_message = test_signed_message();
    let forged = SuteraSignedMessage {
        signature: [0; 64],
        ..signed_message
    };
    assert!(!forged.verify());
}

#[test]
fn serialized_signature_is_uppercase_hex() {
    let payload = test_signed_message().serialize();
    assert_eq!(payload.signature.len(), 128);
    assert!(payload
        .signature
        .chars()
        .all(|c| c.is_ascii_digit() || c.is_ascii_uppercase()));
}

#[test]
fn deserialize_rejects_bad_author() {
    let payload = SuteraSignedMessagePayload {
        author: "nonsense".to_string(),
        message: "hi".to_string(),
        signature: "0".repeat(128),
    };
    assert_eq!(
        SuteraSignedMessage::deserialize(payload),
        Err(SuteraMessageDeserializeError::InvalidAuthor(
            SuteraIdentityStringParseError::InvalidFormat
        ))
    );
}

#[test]
fn deserialize_rejects_bad_signature_text() {
    let author = format!("user.sutera-identity-v1.{}", "0".repeat(64));

    let short = SuteraSignedMessagePayload {
        author: author.clone(),
        message: "hi".to_string(),
        signature: "0".repeat(127),
    };
    assert_eq!(
        SuteraSignedMessage::deserialize(short),
        Err(SuteraMessageDeserializeError::InvalidSignature)
    );

    let mixed_case = SuteraSignedMessagePayload {
        author: author.clone(),
        message: "hi".to_string(),
        signature: format!("aA{}", "0".repeat(126)),
    };
    assert_eq!(
        SuteraSignedMessage::deserialize(mixed_case),
        Err(SuteraMessageDeserializeError::InvalidSignature)
    );

    let not_hex = SuteraSignedMessagePayload {
        author,
        message: "hi".to_string(),
        signature: "g".repeat(128),
    };
    assert_eq!(
        SuteraSignedMessage::deserialize(not_hex),
        Err(SuteraMessageDeserializeError::InvalidSignature)
    );
}

#[test]
fn deserialize_does_not_verify() {
    let author = format!("user.sutera-identity-v1.{}", "0".repeat(64));
    let payload = SuteraSignedMessagePayload {
        author,
        message: "hi".to_string(),
        signature: "ab".repeat(64),
    };
    let message = SuteraSignedMessage::deserialize(payload).unwrap();
    assert_eq!(message.signature, [0xab; 64]);
    assert!(!message.verify());
}
