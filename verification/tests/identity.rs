use sutera_lib::identity::SuteraIdentity;
use sutera_lib::identity::SuteraIdentityKind;
use sutera_lib::identity::SuteraIdentityStringParseError;

#[test]
fn sutera_identity_string() {
    let identity = SuteraIdentity {
        kind: SuteraIdentityKind::User,
        display_name: Some("see2et".to_string()),
        pub_signature: [0; 32],
    };

    let identity_str: String = identity.to_identity_string();
    assert_eq!(
        identity_str,
        "user@see2et.sutera-identity-v1.0000000000000000000000000000000000000000000000000000000000000000"
    );

    let parsed_identity: SuteraIdentity = SuteraIdentity::try_from(identity_str).unwrap();
    assert_eq!(identity, parsed_identity);
}

#[test]
fn sutera_identity_string_without_name() {
    let identity = SuteraIdentity {
        kind: SuteraIdentityKind::User,
        display_name: None,
        pub_signature: [0; 32],
    };

    let identity_str: String = identity.to_identity_string();
    assert_eq!(
        identity_str,
        "user.sutera-identity-v1.0000000000000000000000000000000000000000000000000000000000000000"
    );

    let parsed_identity: SuteraIdentity = SuteraIdentity::try_from(identity_str).unwrap();
    assert_eq!(identity, parsed_identity);
}

#[test]
fn sutera_identity_string_version_mismatch() {
    let invalid_identity_str = "see2et.sutera-identity-v2.xxx";
    assert_eq!(
        SuteraIdentity::try_from(invalid_identity_str.to_string()),
        Err(SuteraIdentityStringParseError::VersionMismatch(
            "sutera-identity-v2".to_string()
        ))
    );
}

#[test]
fn sutera_identity_string_invalid() {
    let invalid_identity_str = "user.sutera-identity-v1";
    assert_eq!(
        SuteraIdentity::try_from(invalid_identity_str.to_string()),
        Err(SuteraIdentityStringParseError::InvalidFormat)
    );
    let invalid_identity_str = "user.sutera-identity-v1.abc";
    assert_eq!(
        SuteraIdentity::try_from(invalid_identity_str.to_string()),
        Err(SuteraIdentityStringParseError::InvalidFormat)
    );
    let invalid_identity_str = "user.sutera-identity-v1.x000000000000000000000000000000000000000000000000000000000000000";
    assert_eq!(
        SuteraIdentity::try_from(invalid_identity_str.to_string()),
        Err(SuteraIdentityStringParseError::InvalidFormat)
    );
    let invalid_identity_str = "unknown.sutera-identity-v1.x000000000000000000000000000000000000000000000000000000000000000";
    assert_eq!(
        SuteraIdentity::try_from(invalid_identity_str.to_string()),
        Err(SuteraIdentityStringParseError::UnsupportedKind(
            "unknown".to_string()
        ))
    );
    let invalid_identity_str = "unknown@hello.sutera-identity-v1.x000000000000000000000000000000000000000000000000000000000000000";
    assert_eq!(
        SuteraIdentity::try_from(invalid_identity_str.to_string()),
        Err(SuteraIdentityStringParseError::UnsupportedKind(
            "unknown".to_string()
        ))
    );
    let invalid_identity_str =
        "sutera-identity-v1.0000000000000000000000000000000000000000000000000000000000000000";
    assert_eq!(
        SuteraIdentity::try_from(invalid_identity_str.to_string()),
        Err(SuteraIdentityStringParseError::InvalidFormat)
    );
    let invalid_identity_str =
        ".sutera-identity-v1.0000000000000000000000000000000000000000000000000000000000000000";
    assert_eq!(
        SuteraIdentity::try_from(invalid_identity_str.to_string()),
        Err(SuteraIdentityStringParseError::InvalidFormat)
    );
}

#[test]
fn identity_round_trip_with_mixed_key_bytes() {
    let mut key = [0u8; 32];
    for (i, byte) in key.iter_mut().enumerate() {
        *byte = (i as u8).wrapping_mul(37).wrapping_add(11);
    }
    let identity = SuteraIdentity {
        kind: SuteraIdentityKind::User,
        display_name: Some("Alice123".to_string()),
        pub_signature: key,
    };
    let text = identity.to_identity_string();
    assert_eq!(SuteraIdentity::try_from(text), Ok(identity));
}

#[test]
fn identity_parse_accepts_uppercase_hex() {
    let text = format!("user.sutera-identity-v1.{}", "AB".repeat(32));
    let parsed = SuteraIdentity::try_from(text).unwrap();
    assert_eq!(parsed.pub_signature, [0xab; 32]);
    assert_eq!(
        parsed.to_identity_string(),
        format!("user.sutera-identity-v1.{}", "ab".repeat(32))
    );
}

#[test]
fn identity_parse_does_not_revalidate_display_name() {
    let text = format!("user@.sutera-identity-v1.{}", "0".repeat(64));
    let parsed = SuteraIdentity::try_from(text).unwrap();
    assert_eq!(parsed.display_name, Some(String::new()));
}

#[test]
fn identity_parse_unsupported_kind_with_valid_key() {
    let text = format!("unknown.sutera-identity-v1.{}", "0".repeat(64));
    assert_eq!(
        SuteraIdentity::try_from(text),
        Err(SuteraIdentityStringParseError::UnsupportedKind(
            "unknown".to_string()
        ))
    );
    let text = format!("unknown@hello.sutera-identity-v1.{}", "0".repeat(64));
    assert_eq!(
        SuteraIdentity::try_from(text),
        Err(SuteraIdentityStringParseError::UnsupportedKind(
            "unknown".to_string()
        ))
    );
}

#[test]
fn identity_parse_rejects_empty_string() {
    assert_eq!(
        SuteraIdentity::try_from(String::new()),
        Err(SuteraIdentityStringParseError::InvalidFormat)
    );
}

#[test]
fn identity_parse_rejects_four_segments() {
    let text = format!("user.sutera-identity-v1.{}.extra", "0".repeat(64));
    assert_eq!(
        SuteraIdentity::try_from(text),
        Err(SuteraIdentityStringParseError::InvalidFormat)
    );
}
