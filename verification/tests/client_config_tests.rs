use spotify_access::client_config::{
    parse_port, ClientConfig, KeyPrompt, KeyPromptStep, CLIENT_CONFIG_FILE, DEFAULT_PORT,
};

#[test]
fn test_validate_valid_key() {
    let valid_key = "65b708073fc0480ea92a077233ca87bd";
    assert!(ClientConfig::validate_client_key(valid_key).is_ok());
}

#[test]
fn test_validate_invalid_length() {
    let short_key = "65b708073fc0480e";
    assert!(ClientConfig::validate_client_key(short_key).is_err());
}

#[test]
fn test_validate_invalid_chars() {
    let bad_key = "65b708073fc0480ea92a077233ca87zz";
    assert!(ClientConfig::validate_client_key(bad_key).is_err());
}

#[test]
fn test_redirect_uri() {
    let config = ClientConfig {
        port: Some(8888),
        ..Default::default()
    };
    assert_eq!(config.get_redirect_uri(), "http://127.0.0.1:8888/callback");
}

#[test]
fn validate_reports_each_error_in_words() {
    assert_eq!(
        ClientConfig::validate_client_key(""),
        Err("Key cannot be empty".to_string())
    );
    assert_eq!(
        ClientConfig::validate_client_key("65b708073fc0480e"),
        Err("Invalid length: 16 (must be 32)".to_string())
    );
    assert_eq!(
        ClientConfig::validate_client_key("65b708073fc0480ea92a077233ca87zz"),
        Err("Invalid character found (must be hex digits only)".to_string())
    );
    assert_eq!(
        ClientConfig::validate_client_key("65B708073FC0480EA92A077233CA87BD"),
        Ok(())
    );
}

#[test]
fn validate_counts_bytes_not_characters() {
    // 31 characters, 32 bytes: the length passes, the last character does not.
    let key = "65b708073fc0480ea92a077233ca87\u{e9}";
    assert_eq!(key.len(), 32);
    assert_eq!(
        ClientConfig::validate_client_key(key),
        Err("Invalid character found (must be hex digits only)".to_string())
    );
    // 32 characters, 33 bytes.
    let key = "65b708073fc0480ea92a077233ca87b\u{e9}";
    assert_eq!(
        ClientConfig::validate_client_key(key),
        Err("Invalid length: 33 (must be 32)".to_string())
    );
}

#[test]
fn new_config_is_empty_and_uses_the_default_port() {
    let config = ClientConfig::new();
    assert_eq!(config.client_id, "");
    assert_eq!(config.client_secret, "");
    assert_eq!(config.device_id, None);
    assert_eq!(config.port, None);
    assert_eq!(config.get_port(), 8888);
    assert_eq!(DEFAULT_PORT, 8888);
    assert_eq!(config.get_redirect_uri(), "http://127.0.0.1:8888/callback");
    assert!(config == ClientConfig::default());
    assert_eq!(CLIENT_CONFIG_FILE, "client.yml");
}

#[test]
fn redirect_uri_follows_the_port() {
    let mut config = ClientConfig::new();
    config.port = Some(0);
    assert_eq!(config.get_redirect_uri(), "http://127.0.0.1:0/callback");
    config.port = Some(65535);
    assert_eq!(config.get_port(), 65535);
    assert_eq!(config.get_redirect_uri(), "http://127.0.0.1:65535/callback");
    config.port = Some(9090);
    assert_eq!(config.get_redirect_uri(), "http://127.0.0.1:9090/callback");
}

#[test]
fn configs_compare_by_their_fields() {
    let mut a = ClientConfig::new();
    let mut b = ClientConfig::new();
    a.client_id = "abc".to_string();
    assert!(a != b);
    b.client_id = "abc".to_string();
    assert!(a == b);
    a.device_id = Some("dev".to_string());
    assert!(a != b);
    b.device_id = Some("dev".to_string());
    b.port = Some(1);
    assert!(a != b);
    a.port = Some(1);
    assert!(a == b);
}

#[test]
fn port_answers() {
    assert_eq!(parse_port("9000\n"), 9000);
    assert_eq!(parse_port("  8080  "), 8080);
    assert_eq!(parse_port("+81"), 81);
    assert_eq!(parse_port(""), 8888);
    assert_eq!(parse_port("\n"), 8888);
    assert_eq!(parse_port("65535"), 65535);
    assert_eq!(parse_port("65536"), 8888);
    assert_eq!(parse_port("-1"), 8888);
    assert_eq!(parse_port("80 80"), 8888);
    assert_eq!(parse_port("eighty"), 8888);
    assert_eq!(parse_port("99999999999999999999999999"), 8888);
    assert_eq!(parse_port("0"), 0);
}

#[test]
fn adopt_takes_settings_over_and_refuses_empty_credentials() {
    let mut config = ClientConfig::new();
    let loaded = ClientConfig {
        client_id: "id".to_string(),
        client_secret: "secret".to_string(),
        device_id: Some("device".to_string()),
        port: Some(4000),
    };
    assert_eq!(config.adopt(loaded.clone()), Ok(()));
    assert!(config == loaded);

    let mut config = ClientConfig::new();
    let loaded = ClientConfig {
        client_id: "id".to_string(),
        client_secret: String::new(),
        device_id: None,
        port: Some(4000),
    };
    assert_eq!(
        config.adopt(loaded.clone()),
        Err("client_id or client_secret is empty in config file".to_string())
    );
    assert!(config == loaded);

    let loaded = ClientConfig {
        client_id: String::new(),
        client_secret: "secret".to_string(),
        device_id: None,
        port: None,
    };
    assert!(config.adopt(loaded).is_err());
}

#[test]
fn setup_ends_with_the_answers() {
    let config = ClientConfig::from_setup("a".repeat(32), "b".repeat(32), "7777\n");
    assert_eq!(config.client_id, "a".repeat(32));
    assert_eq!(config.client_secret, "b".repeat(32));
    assert_eq!(config.device_id, None);
    assert_eq!(config.port, Some(7777));
    let config = ClientConfig::from_setup("a".repeat(32), "b".repeat(32), "\n");
    assert_eq!(config.port, Some(8888));
}

#[test]
fn key_prompt_accepts_a_trimmed_key() {
    let mut prompt = KeyPrompt::new();
    match prompt.submit("  65b708073fc0480ea92a077233ca87bd\r\n") {
        KeyPromptStep::Accepted(key) => assert_eq!(key, "65b708073fc0480ea92a077233ca87bd"),
        other => panic!("unexpected step: {:?}", other),
    }
    assert_eq!(prompt.refused, 0);
}

#[test]
fn key_prompt_gives_up_at_the_fifth_bad_key() {
    let mut prompt = KeyPrompt::new();
    for round in 1..=4u8 {
        match prompt.submit("nope\n") {
            KeyPromptStep::Refused { reason } => {
                assert_eq!(reason, "Invalid length: 4 (must be 32)")
            }
            other => panic!("unexpected step: {:?}", other),
        }
        assert_eq!(prompt.refused, round);
    }
    match prompt.submit("\n") {
        KeyPromptStep::GaveUp { reason, message } => {
            assert_eq!(reason, "Key cannot be empty");
            assert_eq!(message, "Maximum retries (5) exceeded");
        }
        other => panic!("unexpected step: {:?}", other),
    }
}
