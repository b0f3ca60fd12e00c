use time_manager::token::{
    generate_ingest_token, is_valid_ingest_token, stored_ingest_token, to_hex, token_from_random,
    INGEST_TOKEN_BYTES, INGEST_TOKEN_FILE,
};

#[test]
fn generated_tokens_are_valid_lowercase_hex() {
    let first = generate_ingest_token().unwrap();
    let second = generate_ingest_token().unwrap();

    assert_eq!(first.len(), INGEST_TOKEN_BYTES * 2);
    assert_eq!(first.len(), 64);
    assert!(first.chars().all(|c| c.is_ascii_digit() || ('a'..='f').contains(&c)));
    assert!(is_valid_ingest_token(&first));
    assert_ne!(first, second);
}

#[test]
fn generated_token_is_reused_from_storage() {
    let token = generate_ingest_token().unwrap();
    assert_eq!(stored_ingest_token(&token), Some(token.clone()));
    assert_eq!(stored_ingest_token(&format!("  {token}\n")), Some(token.clone()));
    assert_eq!(INGEST_TOKEN_FILE, "ingest-token");
}

#[test]
fn stored_token_must_have_token_form() {
    let upper = "ABCDEF0123456789".repeat(4);
    assert_eq!(stored_ingest_token(&upper), Some(upper.clone()));
    assert_eq!(stored_ingest_token(&upper[..63]), None);
    assert_eq!(stored_ingest_token(&format!("{upper}0")), None);
    assert_eq!(stored_ingest_token(""), None);
    assert_eq!(stored_ingest_token("\u{3000}\t"), None);
    let spaced = format!("{} {}", &upper[..32], &upper[32..63]);
    assert_eq!(stored_ingest_token(&spaced), None);
}

#[test]
fn validates_token_form() {
    assert!(is_valid_ingest_token(&"0".repeat(64)));
    assert!(is_valid_ingest_token(&"aF".repeat(32)));
    assert!(!is_valid_ingest_token(&"g".repeat(64)));
    assert!(!is_valid_ingest_token(&"a".repeat(65)));
    assert!(!is_valid_ingest_token(&"a".repeat(63)));
    assert!(!is_valid_ingest_token(&format!("{}é", "a".repeat(62))));
}

#[test]
fn encodes_drawn_bytes_as_lowercase_hex() {
    assert_eq!(to_hex(&[0x00, 0x0f, 0xa5, 0xff]), "000fa5ff");
    assert_eq!(to_hex(&[]), "");
    let bytes: Vec<u8> = (0u8..32).collect();
    let token = token_from_random(Ok(()), &bytes).unwrap();
    assert_eq!(token, "000102030405060708090a0b0c0d0e0f101112131415161718191a1b1c1d1e1f");
    assert!(is_valid_ingest_token(&token));
}

#[test]
fn carries_the_random_source_error_unchanged() {
    let error = getrandom::Error::from(std::num::NonZeroU32::new(getrandom::Error::CUSTOM_START + 7).unwrap());
    let result = token_from_random(Err(error), &[0u8; 32]);
    assert_eq!(result, Err(error));
}
