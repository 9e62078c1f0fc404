use pubkymobile::{
    create_recovery_file, create_response_vector, decrypt_recovery_file, fetched_body_to_string,
    generate_keypair, generate_mnemonic_phrase, generate_mnemonic_phrase_and_keypair,
    generate_secret_key, get_keypair_from_secret_key, get_public_key_from_secret_key,
    get_secret_key_from_keypair, keypair_to_json_string, mnemonic_phrase_to_keypair,
    mnemonic_to_secret_key, session_to_json, session_to_json_with_secret, switch_network_response,
    trim_trailing, validate_mnemonic_phrase, Session,
};

fn test_secret_key() -> String {
    let keypair = generate_keypair();
    get_secret_key_from_keypair(&keypair)
}

// Test generate secret key
#[test]
fn test_generate_secret_key() {
    let result = generate_secret_key();
    assert_eq!(result[0], "false");

    let json: serde_json::Value = serde_json::from_str(&result[1]).unwrap();

    assert!(json["secret_key"].is_string());
    assert!(json["public_key"].is_string());
    assert!(json["uri"].is_string());
}

// Test get public key from secret key
#[test]
fn test_get_public_key_from_secret_key() {
    let secret_key = test_secret_key();

    let result = get_public_key_from_secret_key(secret_key);
    assert_eq!(result[0], "false");

    let json: serde_json::Value = serde_json::from_str(&result[1]).unwrap();
    assert!(json["public_key"].is_string());
    assert!(json["uri"].is_string());

    // Test with invalid secret key
    let result = get_public_key_from_secret_key("invalid_key".to_string());
    assert_eq!(result[0], "true");
}

#[test]
fn secret_key_error_messages_are_exact() {
    let r = get_keypair_from_secret_key("zz");
    assert_eq!(r.unwrap_err(), "Failed to decode secret key");

    let r = get_keypair_from_secret_key("aabb");
    assert_eq!(r.unwrap_err(), "Failed to convert secret key to 32-byte array");
}

#[test]
fn public_key_uri_carries_pk_prefix() {
    let keypair = generate_keypair();
    let json = keypair_to_json_string(&keypair, None).unwrap();
    let v: serde_json::Value = serde_json::from_str(&json).unwrap();
    assert_eq!(v["secret_key"].as_str().unwrap(), get_secret_key_from_keypair(&keypair));
    assert_eq!(v["public_key"].as_str().unwrap(), keypair.public_key);
    assert!(v["mnemonic"].is_null());
}

// Test recovery file creation and decryption
#[test]
fn test_create_and_decrypt_recovery_file() {
    let secret_key = test_secret_key();
    let passphrase = "test_passphrase".to_string();

    // Create recovery file
    let create_result = create_recovery_file(secret_key.clone(), passphrase.clone());
    assert_eq!(create_result[0], "false");

    // Test recovery file decryption
    let recovery_file = create_result[1].clone();
    let decrypt_result = decrypt_recovery_file(recovery_file, passphrase);
    assert_eq!(decrypt_result[0], "false");
    assert_eq!(decrypt_result[1], secret_key);
}

#[test]
fn empty_recovery_inputs_are_rejected() {
    let recovery_result = create_recovery_file("".to_string(), "passphrase".to_string());
    assert_eq!(recovery_result[0], "true");
    assert_eq!(recovery_result[1], "Secret key and passphrase must not be empty");

    let decrypt_result = decrypt_recovery_file("".to_string(), "passphrase".to_string());
    assert_eq!(decrypt_result[0], "true");
    assert_eq!(decrypt_result[1], "Recovery file and passphrase must not be empty");
}

#[test]
fn wrong_passphrase_fails_decryption() {
    let secret_key = test_secret_key();
    let create_result = create_recovery_file(secret_key, "right".to_string());
    assert_eq!(create_result[0], "false");

    let decrypt_result = decrypt_recovery_file(create_result[1].clone(), "wrong".to_string());
    assert_eq!(decrypt_result[0], "true");
    assert_eq!(decrypt_result[1], "Failed to decrypt recovery file");
}

#[test]
fn bad_base64_recovery_file_is_reported() {
    let decrypt_result = decrypt_recovery_file("%%%".to_string(), "p".to_string());
    assert_eq!(decrypt_result[0], "true");
    assert!(decrypt_result[1].starts_with("Failed to decode recovery file: "));
}

// Test generate_mnemonic_phrase
#[test]
fn test_generate_mnemonic_phrase() {
    let result = generate_mnemonic_phrase();
    assert_eq!(result[0], "false");

    let mnemonic = &result[1];
    let words: Vec<&str> = mnemonic.split_whitespace().collect();
    assert_eq!(words.len(), 12, "Mnemonic should have 12 words");

    // Validate the generated mnemonic
    let validate_result = validate_mnemonic_phrase(mnemonic.clone());
    assert_eq!(validate_result[0], "false");
    assert_eq!(validate_result[1], "true");
}

// Test mnemonic_phrase_to_keypair
#[test]
fn test_mnemonic_phrase_to_keypair() {
    // First generate a valid mnemonic
    let mnemonic_result = generate_mnemonic_phrase();
    assert_eq!(mnemonic_result[0], "false");
    let mnemonic = mnemonic_result[1].clone();

    // Convert to keypair
    let result = mnemonic_phrase_to_keypair(mnemonic);
    assert_eq!(result[0], "false");

    let json: serde_json::Value = serde_json::from_str(&result[1]).unwrap();
    assert!(json["secret_key"].is_string());
    assert!(json["public_key"].is_string());

    // Test with invalid mnemonic
    let invalid_result = mnemonic_phrase_to_keypair("invalid mnemonic phrase".to_string());
    assert_eq!(invalid_result[0], "true");
}

// Test generate_mnemonic_phrase_and_keypair
#[test]
fn test_generate_mnemonic_phrase_and_keypair() {
    let result = generate_mnemonic_phrase_and_keypair();
    assert_eq!(result[0], "false");

    let json: serde_json::Value = serde_json::from_str(&result[1]).unwrap();
    assert!(json["mnemonic"].is_string());
    assert!(json["secret_key"].is_string());
    assert!(json["public_key"].is_string());

    // Verify the mnemonic is valid
    let mnemonic = json["mnemonic"].as_str().unwrap();
    let words: Vec<&str> = mnemonic.split_whitespace().collect();
    assert_eq!(words.len(), 12, "Mnemonic should have 12 words");

    // Verify we can recreate the same keypair from the mnemonic
    let keypair_result = mnemonic_phrase_to_keypair(mnemonic.to_string());
    assert_eq!(keypair_result[0], "false");
    let keypair_json: serde_json::Value = serde_json::from_str(&keypair_result[1]).unwrap();
    assert_eq!(json["secret_key"], keypair_json["secret_key"]);
    assert_eq!(json["public_key"], keypair_json["public_key"]);
}

// Test validate_mnemonic_phrase
#[test]
fn test_validate_mnemonic_phrase() {
    // Test with valid mnemonic
    let valid_mnemonic = "abandon abandon abandon abandon abandon abandon abandon abandon abandon abandon abandon about";
    let result = validate_mnemonic_phrase(valid_mnemonic.to_string());
    assert_eq!(result[0], "false");
    assert_eq!(result[1], "true");

    // Test with invalid mnemonic
    let invalid_mnemonic = "invalid words that are not in the bip39 wordlist";
    let result = validate_mnemonic_phrase(invalid_mnemonic.to_string());
    assert_eq!(result[0], "false");
    assert_eq!(result[1], "false");

    // Test with wrong number of words
    let wrong_count = "abandon abandon abandon";
    let result = validate_mnemonic_phrase(wrong_count.to_string());
    assert_eq!(result[0], "false");
    assert_eq!(result[1], "false");
}

// Test mnemonic consistency
#[test]
fn test_mnemonic_consistency() {
    // Generate a mnemonic and verify consistent keypair derivation
    let mnemonic_result = generate_mnemonic_phrase();
    assert_eq!(mnemonic_result[0], "false");
    let mnemonic = mnemonic_result[1].clone();

    // Get keypair multiple times and ensure consistency
    let keypair1 = mnemonic_phrase_to_keypair(mnemonic.clone());
    let keypair2 = mnemonic_phrase_to_keypair(mnemonic.clone());
    assert_eq!(keypair1[0], "false");
    assert_eq!(keypair2[0], "false");

    let json1: serde_json::Value = serde_json::from_str(&keypair1[1]).unwrap();
    let json2: serde_json::Value = serde_json::from_str(&keypair2[1]).unwrap();

    // Verify same mnemonic produces same keypair
    assert_eq!(
        json1["secret_key"], json2["secret_key"],
        "Same mnemonic should produce same secret key"
    );
    assert_eq!(
        json1["public_key"], json2["public_key"],
        "Same mnemonic should produce same public key"
    );
}

#[test]
fn known_mnemonic_derives_known_secret_key() {
    let mnemonic = "abandon abandon abandon abandon abandon abandon abandon abandon abandon abandon abandon about";
    let secret = mnemonic_to_secret_key(mnemonic).unwrap();
    assert_eq!(secret, "5eb00bbddcf069084889a8ab9155568165f5c453ccb85e70811aaed6f6da5fc1");

    let err = mnemonic_to_secret_key("not a phrase").unwrap_err();
    assert_eq!(err, "Invalid mnemonic phrase");
}

#[test]
fn derived_public_key_matches_the_signing_crate() {
    let reference = pkarr::Keypair::random();
    let secret_hex = hex::encode(reference.secret_key());
    assert_eq!(secret_hex.len(), 64);

    let keypair = get_keypair_from_secret_key(&secret_hex).unwrap();
    assert_eq!(keypair.public_key, reference.public_key().to_z32());
    assert_eq!(get_secret_key_from_keypair(&keypair), secret_hex);
}

#[test]
fn session_renders_pubky_and_capabilities() {
    let session = Session {
        pubky: "o1gg96ewuojmopcjbz8895478wdtxtzzuxnfjjz8o8e77csa1ngo".to_string(),
        capabilities: vec!["/pub/pubky.app/:rw".to_string()],
    };
    assert_eq!(
        session_to_json(&session),
        "{\"pubky\":\"o1gg96ewuojmopcjbz8895478wdtxtzzuxnfjjz8o8e77csa1ngo\",\"capabilities\":[\"/pub/pubky.app/:rw\"]}",
    );
    assert_eq!(
        session_to_json_with_secret(&session, "s3cret"),
        "{\"pubky\":\"o1gg96ewuojmopcjbz8895478wdtxtzzuxnfjjz8o8e77csa1ngo\",\"capabilities\":[\"/pub/pubky.app/:rw\"],\"session_secret\":\"s3cret\"}",
    );
}

#[test]
fn response_vector_carries_flag_and_payload() {
    let ok = create_response_vector(false, "data".to_string());
    assert_eq!(ok, vec!["false".to_string(), "data".to_string()]);

    let err = create_response_vector(true, "boom".to_string());
    assert_eq!(err, vec!["true".to_string(), "boom".to_string()]);
}

// Test network switching
#[test]
fn test_switch_network() {
    let testnet_result = switch_network_response(true);
    assert_eq!(testnet_result[0], "false");
    assert_eq!(testnet_result[1], "Switched to testnet network");

    let default_result = switch_network_response(false);
    assert_eq!(default_result[0], "false");
    assert_eq!(default_result[1], "Switched to default network");
}

#[test]
fn trailing_slashes_are_trimmed() {
    assert_eq!(trim_trailing("pubky://abc/pub/x///", '/'), "pubky://abc/pub/x");
    assert_eq!(trim_trailing("no-slash", '/'), "no-slash");
    assert_eq!(trim_trailing("///", '/'), "");
}

#[test]
fn fetched_body_passes_text_and_wraps_bytes() {
    assert_eq!(fetched_body_to_string(b"plain text".to_vec()), "plain text");
    assert_eq!(fetched_body_to_string(vec![0xFF, 0xFE, 0x01]), "base64://4B");
}
