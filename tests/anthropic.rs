use rig_compression::anthropic::{
    AnthropicBuilder, AnthropicKey, AnthropicOAuthBuilder, HeaderError, ANTHROPIC_VERSION_LATEST,
};

fn pairs(hs: &[(String, String)]) -> Vec<(&str, &str)> {
    hs.iter().map(|(n, v)| (n.as_str(), v.as_str())).collect()
}

#[test]
fn api_builder_default_headers() {
    let hs = AnthropicBuilder::default().finish().unwrap();
    assert_eq!(pairs(&hs), vec![("anthropic-version", ANTHROPIC_VERSION_LATEST)]);
    assert_eq!(ANTHROPIC_VERSION_LATEST, "2023-06-01");
}

#[test]
fn api_builder_joins_betas() {
    let builder = AnthropicBuilder::default()
        .anthropic_version("2024-01-01")
        .anthropic_beta("prompt-caching-2024-07-31")
        .anthropic_betas(&["a", "b"]);
    assert_eq!(builder.anthropic_betas, vec!["prompt-caching-2024-07-31", "a", "b"]);
    let hs = builder.finish().unwrap();
    assert_eq!(
        pairs(&hs),
        vec![
            ("anthropic-version", "2024-01-01"),
            ("anthropic-beta", "prompt-caching-2024-07-31,a,b")
        ]
    );
}

#[test]
fn oauth_builder_default_headers() {
    let hs = AnthropicOAuthBuilder::new("agent/0.1").finish().unwrap();
    assert_eq!(
        pairs(&hs),
        vec![
            ("anthropic-version", "2023-06-01"),
            ("anthropic-beta", "oauth-2025-04-20"),
            ("x-app", "cli"),
            ("user-agent", "agent/0.1")
        ]
    );
}

#[test]
fn oauth_builder_settings() {
    let hs = AnthropicOAuthBuilder::new("agent/0.1")
        .anthropic_version("v2")
        .anthropic_betas(&["x"])
        .anthropic_beta("y")
        .user_agent("agent/1.0")
        .x_app("app")
        .finish()
        .unwrap();
    assert_eq!(
        pairs(&hs),
        vec![
            ("anthropic-version", "v2"),
            ("anthropic-beta", "oauth-2025-04-20,x,y"),
            ("x-app", "app"),
            ("user-agent", "agent/1.0")
        ]
    );
}

#[test]
fn header_values_are_checked() {
    let err = AnthropicOAuthBuilder::new("agent/0.1").x_app("bad\nvalue").user_agent("also\rbad").finish();
    assert_eq!(err, Err(HeaderError::InvalidValue("x-app".to_string())));
    let err = AnthropicBuilder::default().anthropic_version("v\u{7f}").finish();
    assert_eq!(err, Err(HeaderError::InvalidValue("anthropic-version".to_string())));
    let ok = AnthropicBuilder::default().anthropic_version("tab\there caf\u{e9}").finish();
    assert!(ok.is_ok());
}

#[test]
fn api_key_header() {
    let (name, value) = AnthropicKey::new("SECRET-REDACTED").into_header().unwrap();
    assert_eq!(name, "x-api-key");
    assert_eq!(value, "SECRET-REDACTED");
    let err = AnthropicKey::new("line\nbreak").into_header();
    assert_eq!(err, Err(HeaderError::InvalidValue("x-api-key".to_string())));
}
