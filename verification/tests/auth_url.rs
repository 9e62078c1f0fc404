use pubkymobile::{
    parse_auth_url, parse_pubky_auth_url, pubky_auth_details_to_json, AuthParseError,
};

fn parse_ok(url: &str) -> pubkymobile::PubkyAuthDetails {
    parse_pubky_auth_url(url).unwrap()
}

// Test auth URL parsing
#[test]
fn tests_test_parse_auth_url() {
    let test_url = "pubkyauth:///?caps=/pub/pubky.app/:rw,/pub/foo.bar/file:r&secret=U55XnoH6vsMCpx1pxHtt8fReVg4Brvu9C0gUBuw-Jkw&relay=http://167.86.102.121:4173/";
    let result = parse_auth_url(test_url.to_string());
    println!("tests_test_parse_auth_url Result: {:?}", result);
    assert_eq!(result[0], "false");

    let json: serde_json::Value = serde_json::from_str(&result[1]).unwrap();
    assert!(json.is_object());
}

// Test auth URL parsing
#[test]
fn lib_tests_test_parse_auth_url() {
    let test_url = "pubkyauth:///?caps=/pub/pubky.app/:rw,/pub/foo.bar/file:r&secret=U55XnoH6vsMCpx1pxHtt8fReVg4Brvu9C0gUBuw-Jkw&relay=http://167.86.102.121:4173/";
    let result = parse_auth_url(test_url.to_string());
    println!("lib_tests_test_parse_auth_url Result: {:?}", result);
    assert_eq!(result[0], "false");

    let json: serde_json::Value = serde_json::from_str(&result[1]).unwrap();
    assert!(json.is_object());
}

#[test]
fn capability_splits_at_first_colon_only() {
    let details = parse_ok("pubkyauth:///?relay=http://r/&secret=s&caps=/a:b:c");
    assert_eq!(details.capabilities.len(), 1);
    assert_eq!(details.capabilities[0].path, "/a");
    assert_eq!(details.capabilities[0].permission, "b:c");
}

#[test]
fn empty_capability_list_is_not_an_error() {
    let details = parse_ok("pubkyauth:///?relay=http://r/&secret=s&capabilities=");
    assert_eq!(details.capabilities.len(), 0);

    let details = parse_ok("pubkyauth:///?relay=http://r/&secret=s");
    assert_eq!(details.capabilities.len(), 0);
}

#[test]
fn missing_secret_fails_with_missing_secret() {
    let r = parse_pubky_auth_url("pubkyauth:///?relay=http://example/&caps=/pub/app/:rw");
    assert!(matches!(r, Err(AuthParseError::MissingSecret)));

    let response = parse_auth_url(
        "pubkyauth:///?relay=http://example/&caps=/pub/app/:rw".to_string(),
    );
    assert_eq!(response[0], "true");
    assert_eq!(response[1], "Missing secret");
}

#[test]
fn missing_relay_fails_with_missing_relay() {
    let r = parse_pubky_auth_url("pubkyauth:///?secret=s");
    assert!(matches!(r, Err(AuthParseError::MissingRelay)));
}

#[test]
fn wrong_scheme_fails_with_invalid_scheme() {
    let r = parse_pubky_auth_url("otherscheme:///?relay=http://r/&secret=s");
    assert!(matches!(r, Err(AuthParseError::InvalidScheme)));

    let r = parse_pubky_auth_url("https://example.com/?relay=http://r/&secret=s");
    assert!(matches!(r, Err(AuthParseError::InvalidScheme)));
}

#[test]
fn unparseable_input_fails_with_invalid_url() {
    let r = parse_pubky_auth_url("not a url at all");
    assert!(matches!(r, Err(AuthParseError::InvalidUrl)));

    let response = parse_auth_url("not a url at all".to_string());
    assert_eq!(response[0], "true");
    assert_eq!(response[1], "Invalid URL");
}

#[test]
fn malformed_capability_token_names_the_token() {
    let r = parse_pubky_auth_url("pubkyauth:///?relay=http://r/&secret=s&caps=/a:rw,nope");
    match r {
        Err(AuthParseError::InvalidCapabilityFormat { token }) => {
            assert_eq!(token, "nope");
        },
        _ => panic!("expected InvalidCapabilityFormat"),
    }

    let response = parse_auth_url(
        "pubkyauth:///?relay=http://r/&secret=s&caps=/a:rw,nope".to_string(),
    );
    assert_eq!(response[0], "true");
    assert_eq!(response[1], "Invalid capability format in 'nope'");
}

#[test]
fn trailing_comma_token_is_malformed() {
    let r = parse_pubky_auth_url("pubkyauth:///?relay=http://r/&secret=s&caps=/a:rw,");
    assert!(matches!(r, Err(AuthParseError::InvalidCapabilityFormat { .. })));
}

#[test]
fn full_scenario_parses_all_fields() {
    let details = parse_ok(
        "pubkyauth:///?caps=/pub/app/:rw,/pub/foo/file:r&secret=S&relay=http://example/",
    );
    assert_eq!(details.relay, "http://example/");
    assert_eq!(details.secret, "S");
    assert_eq!(details.capabilities.len(), 2);
    assert_eq!(details.capabilities[0].path, "/pub/app/");
    assert_eq!(details.capabilities[0].permission, "rw");
    assert_eq!(details.capabilities[1].path, "/pub/foo/file");
    assert_eq!(details.capabilities[1].permission, "r");

    let json_text = pubky_auth_details_to_json(&details).unwrap();
    let json: serde_json::Value = serde_json::from_str(&json_text).unwrap();
    assert_eq!(json["relay"].as_str().unwrap(), "http://example/");
    assert_eq!(json["secret"].as_str().unwrap(), "S");
    let caps = json["capabilities"].as_array().unwrap();
    assert_eq!(caps.len(), 2);
    assert_eq!(caps[0]["path"].as_str().unwrap(), "/pub/app/");
    assert_eq!(caps[0]["permission"].as_str().unwrap(), "rw");
    assert_eq!(caps[1]["path"].as_str().unwrap(), "/pub/foo/file");
    assert_eq!(caps[1]["permission"].as_str().unwrap(), "r");
}

#[test]
fn later_duplicate_query_parameter_wins() {
    let details = parse_ok("pubkyauth:///?relay=http://a/&secret=s1&relay=http://b/&secret=s2");
    assert_eq!(details.relay, "http://b/");
    assert_eq!(details.secret, "s2");
}

#[test]
fn capabilities_key_beats_caps_alias() {
    let details = parse_ok("pubkyauth:///?relay=http://r/&secret=s&caps=/a:r&capabilities=/b:w");
    assert_eq!(details.capabilities.len(), 1);
    assert_eq!(details.capabilities[0].path, "/b");
    assert_eq!(details.capabilities[0].permission, "w");
}
