use rush_cache_server::app_settings::{
    parse_comma_separated, AppSettings, SettingsError, SettingsVars, TokenPermission, TokenStore,
};

fn contains(tokens: &[String], token: &str) -> bool {
    tokens.iter().any(|t| t == token)
}

#[test]
fn test_parse_comma_separated() {
    let result = parse_comma_separated("tok_a, tok_b , tok_c");
    assert_eq!(result.len(), 3);
    assert!(contains(&result, "tok_a"));
    assert!(contains(&result, "tok_b"));
    assert!(contains(&result, "tok_c"));
}

#[test]
fn test_parse_comma_separated_empty() {
    let result = parse_comma_separated("");
    assert!(result.is_empty());
}

#[test]
fn test_parse_comma_separated_single() {
    let result = parse_comma_separated("tok_only");
    assert_eq!(result.len(), 1);
    assert!(contains(&result, "tok_only"));
}

#[test]
fn test_token_store_resolve_read_write() {
    let store = TokenStore::new(vec!["ro_token".to_string()], vec!["rw_token".to_string()]);
    assert_eq!(store.resolve("rw_token"), Some(TokenPermission::ReadWrite));
}

#[test]
fn test_token_store_resolve_read_only() {
    let store = TokenStore::new(vec!["ro_token".to_string()], vec!["rw_token".to_string()]);
    assert_eq!(store.resolve("ro_token"), Some(TokenPermission::ReadOnly));
}

#[test]
fn test_token_store_resolve_unknown() {
    let store = TokenStore::new(vec!["ro_token".to_string()], vec!["rw_token".to_string()]);
    assert_eq!(store.resolve("unknown"), None);
}

#[test]
fn test_token_store_read_write_takes_precedence() {
    // If a token appears in both sets, read-write wins
    let store = TokenStore::new(vec!["shared".to_string()], vec!["shared".to_string()]);
    assert_eq!(store.resolve("shared"), Some(TokenPermission::ReadWrite));
}

#[test]
fn parse_comma_separated_drops_duplicates_and_empty_pieces() {
    let result = parse_comma_separated(" a ,, b,a ,\t, b ,");
    assert_eq!(result.len(), 2);
    assert!(contains(&result, "a"));
    assert!(contains(&result, "b"));
}

#[test]
fn parse_comma_separated_only_separators() {
    assert!(parse_comma_separated(" , ,, ").is_empty());
}

#[test]
fn parse_comma_separated_trims_unicode_whitespace() {
    let result = parse_comma_separated("\u{3000}tok\u{a0}, x y ");
    assert_eq!(result.len(), 2);
    assert!(contains(&result, "tok"));
    assert!(contains(&result, "x y"));
}

#[test]
fn token_store_prefix_of_token_is_unknown() {
    let store = TokenStore::new(vec!["ro_token".to_string()], vec![]);
    assert_eq!(store.resolve("ro_toke"), None);
    assert_eq!(store.resolve("ro_token "), None);
    assert_eq!(store.resolve(""), None);
}

fn vars() -> SettingsVars {
    SettingsVars {
        s3_bucket: Some("my-rush-cache".to_string()),
        s3_region: Some("us-east-1".to_string()),
        cache_tokens_read_only: Some(String::new()),
        cache_tokens_read_write: Some(String::new()),
        host: None,
        port: None,
        s3_prefix: None,
        s3_endpoint: None,
        s3_access_key: None,
        s3_secret_key: None,
        s3_use_path_style: None,
        max_body_size: None,
        log_level: None,
        logs_directory: None,
    }
}

fn settings(vars: SettingsVars) -> AppSettings {
    match AppSettings::from_vars(vars) {
        Ok(settings) => settings,
        Err(error) => panic!("{}", error.message()),
    }
}

#[test]
fn settings_defaults() {
    let s = settings(vars());
    assert_eq!(s.s3_bucket, "my-rush-cache");
    assert_eq!(s.s3_region, "us-east-1");
    assert_eq!(s.host, "0.0.0.0");
    assert_eq!(s.port, 8080);
    assert_eq!(s.s3_prefix, "rush-cache");
    assert_eq!(s.s3_endpoint, None);
    assert_eq!(s.s3_access_key, None);
    assert_eq!(s.s3_secret_key, None);
    assert!(!s.s3_use_path_style);
    assert_eq!(s.max_body_size, 524_288_000);
    assert_eq!(s.log_level, "info");
    assert_eq!(s.logs_directory, None);
    assert_eq!(s.token_store.resolve("anything"), None);
}

#[test]
fn settings_take_given_values() {
    let mut v = vars();
    v.cache_tokens_read_only = Some("tok_ro_1,tok_ro_2".to_string());
    v.cache_tokens_read_write = Some("tok_rw_1".to_string());
    v.host = Some("127.0.0.1".to_string());
    v.port = Some("9000".to_string());
    v.s3_prefix = Some("custom".to_string());
    v.s3_endpoint = Some("http://localhost:9000".to_string());
    v.s3_access_key = Some("access".to_string());
    v.s3_secret_key = Some("secret".to_string());
    v.s3_use_path_style = Some("true".to_string());
    v.max_body_size = Some("+1024".to_string());
    v.log_level = Some("debug".to_string());
    v.logs_directory = Some("/var/log".to_string());
    let s = settings(v);
    assert_eq!(s.host, "127.0.0.1");
    assert_eq!(s.port, 9000);
    assert_eq!(s.s3_prefix, "custom");
    assert_eq!(s.s3_endpoint.as_deref(), Some("http://localhost:9000"));
    assert_eq!(s.s3_access_key.as_deref(), Some("access"));
    assert_eq!(s.s3_secret_key.as_deref(), Some("secret"));
    assert!(s.s3_use_path_style);
    assert_eq!(s.max_body_size, 1024);
    assert_eq!(s.log_level, "debug");
    assert_eq!(s.logs_directory.as_deref(), Some("/var/log"));
    assert_eq!(s.token_store.resolve("tok_ro_2"), Some(TokenPermission::ReadOnly));
    assert_eq!(s.token_store.resolve("tok_rw_1"), Some(TokenPermission::ReadWrite));
}

#[test]
fn settings_path_style_only_for_exact_true() {
    for text in ["TRUE", "1", "yes", " true", "false", ""] {
        let mut v = vars();
        v.s3_use_path_style = Some(text.to_string());
        assert!(!settings(v).s3_use_path_style, "{text}");
    }
}

#[test]
fn settings_missing_bucket() {
    let mut v = vars();
    v.s3_bucket = None;
    v.s3_region = None;
    let error = AppSettings::from_vars(v).err().unwrap();
    assert_eq!(error, SettingsError::MissingBucket);
    assert_eq!(error.message(), "S3_BUCKET environment variable is required");
}

#[test]
fn settings_missing_region() {
    let mut v = vars();
    v.s3_region = None;
    v.port = Some("not a port".to_string());
    let error = AppSettings::from_vars(v).err().unwrap();
    assert_eq!(error, SettingsError::MissingRegion);
    assert_eq!(error.message(), "S3_REGION environment variable is required");
}

#[test]
fn settings_invalid_port() {
    for text in ["65536", "-1", "", "+", "80a", " 80", "99999999999999999999999"] {
        let mut v = vars();
        v.port = Some(text.to_string());
        v.max_body_size = Some("nope".to_string());
        let error = AppSettings::from_vars(v).err().unwrap();
        assert_eq!(error, SettingsError::InvalidPort, "{text}");
        assert_eq!(error.message(), "PORT must be a valid u16");
    }
}

#[test]
fn settings_port_bounds() {
    let mut v = vars();
    v.port = Some("65535".to_string());
    assert_eq!(settings(v).port, 65535);
    let mut v = vars();
    v.port = Some("+0".to_string());
    assert_eq!(settings(v).port, 0);
    let mut v = vars();
    v.port = Some("008080".to_string());
    assert_eq!(settings(v).port, 8080);
}

#[test]
fn settings_invalid_max_body_size() {
    for text in ["-5", "5MB", "", "18446744073709551616"] {
        let mut v = vars();
        v.max_body_size = Some(text.to_string());
        let error = AppSettings::from_vars(v).err().unwrap();
        assert_eq!(error, SettingsError::InvalidMaxBodySize, "{text}");
        assert_eq!(error.message(), "MAX_BODY_SIZE must be a valid usize");
    }
}

#[test]
fn settings_max_body_size_agrees_with_std() {
    for text in ["0", "524288000", "18446744073709551615", "+7", "++7", "4294967296"] {
        let mut v = vars();
        v.max_body_size = Some(text.to_string());
        let ours = AppSettings::from_vars(v).ok().map(|s| s.max_body_size);
        assert_eq!(ours, text.parse::<usize>().ok(), "{text}");
    }
}

#[test]
fn parse_comma_separated_tokens_are_clean() {
    for input in [" a ,, b,a ,\t, b ,", "x", ",,,", "  spaced token  ,\u{2003}y\u{2003}"] {
        for token in parse_comma_separated(input) {
            assert!(!token.is_empty());
            assert!(!token.contains(','));
            assert_eq!(token.trim(), token);
        }
    }
}

#[test]
fn parse_comma_separated_round_trip() {
    let tokens = parse_comma_separated(" tok_1 , tok_2,,tok_3 ");
    let joined = tokens.join(",");
    let mut again = parse_comma_separated(&joined);
    let mut first = tokens.clone();
    first.sort();
    again.sort();
    assert_eq!(first, again);
    assert_eq!(first, vec!["tok_1".to_string(), "tok_2".to_string(), "tok_3".to_string()]);
}

#[test]
fn settings_missing_token_lists() {
    let mut v = vars();
    v.cache_tokens_read_only = None;
    v.cache_tokens_read_write = None;
    v.port = Some("not a port".to_string());
    let error = AppSettings::from_vars(v).err().unwrap();
    assert_eq!(error, SettingsError::MissingReadOnlyTokens);
    assert_eq!(error.message(), "CACHE_TOKENS_READ_ONLY environment variable is required");
    let mut v = vars();
    v.cache_tokens_read_write = None;
    let error = AppSettings::from_vars(v).err().unwrap();
    assert_eq!(error, SettingsError::MissingReadWriteTokens);
    assert_eq!(error.message(), "CACHE_TOKENS_READ_WRITE environment variable is required");
}
