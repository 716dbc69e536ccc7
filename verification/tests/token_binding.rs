use splunk_hec_full::string_map::StringMap;
use splunk_hec_full::token_binding::{
    parse_inputs_conf, tokenless_stanzas, TokenBindingConfig, TokenBindingEngine,
};

#[test]
fn test_parse_inputs_conf_basic() {
    let content = r#"
[http]
disabled = 0
port = 8088

[http://honeypot]
disabled = 0
token = 942b6b3a-dca4-466e-8513-bdada8797549
index = kp_security_honeypot
sourcetype = honeypot_api
indexes = kp_security_honeypot

[http://prometheus_metric]
disabled = 0
token = 8f91673f-b8bd-42c8-aaa6-ecca2eeec988
index = kp_security_prometheus_metric
"#;

    let bindings = parse_inputs_conf(content).unwrap();
    assert_eq!(bindings.len(), 2);

    let honeypot = bindings
        .get("942b6b3a-dca4-466e-8513-bdada8797549")
        .unwrap();
    assert_eq!(honeypot.index.as_deref(), Some("kp_security_honeypot"));
    assert_eq!(honeypot.sourcetype.as_deref(), Some("honeypot_api"));
    assert_eq!(honeypot.source, None);

    let prometheus = bindings
        .get("8f91673f-b8bd-42c8-aaa6-ecca2eeec988")
        .unwrap();
    assert_eq!(
        prometheus.index.as_deref(),
        Some("kp_security_prometheus_metric")
    );
    assert_eq!(prometheus.sourcetype, None);
}

#[test]
fn test_parse_inputs_conf_disabled_stanza() {
    let content = r#"
[http://disabled_input]
disabled = 1
token = aaaaaaaa-bbbb-cccc-dddd-eeeeeeeeeeee
index = should_not_appear

[http://enabled_input]
disabled = 0
token = 11111111-2222-3333-4444-555555555555
index = active_index
"#;

    let bindings = parse_inputs_conf(content).unwrap();
    assert_eq!(bindings.len(), 1);
    assert!(!bindings.contains_key("aaaaaaaa-bbbb-cccc-dddd-eeeeeeeeeeee"));

    let active = bindings
        .get("11111111-2222-3333-4444-555555555555")
        .unwrap();
    assert_eq!(active.index.as_deref(), Some("active_index"));
}

#[test]
fn test_parse_inputs_conf_no_token() {
    let content = r#"
[http://no_token_stanza]
disabled = 0
index = orphan_index
sourcetype = orphan_type
"#;

    let bindings = parse_inputs_conf(content).unwrap();
    assert_eq!(bindings.len(), 0);
}

#[test]
fn test_parse_inputs_conf_comments_and_empty_lines() {
    let content = r#"
# This is a comment
; This is also a comment

[http://test]
disabled = 0
token = test-token-123
index = test_index
# inline comment section
sourcetype = test_type
"#;

    let bindings = parse_inputs_conf(content).unwrap();
    assert_eq!(bindings.len(), 1);
    let binding = bindings.get("test-token-123").unwrap();
    assert_eq!(binding.index.as_deref(), Some("test_index"));
    assert_eq!(binding.sourcetype.as_deref(), Some("test_type"));
}

#[test]
fn test_token_binding_engine_from_config() {
    let mut config_bindings = StringMap::new();
    config_bindings.insert(
        "token-a".to_string(),
        TokenBindingConfig {
            index: Some("index_a".to_string()),
            sourcetype: Some("type_a".to_string()),
            source: None,
        },
    );

    let engine = TokenBindingEngine::from_config(&config_bindings);
    let binding = engine.resolve("token-a").unwrap();
    assert_eq!(binding.index.as_deref(), Some("index_a"));
    assert_eq!(binding.sourcetype.as_deref(), Some("type_a"));
    assert!(engine.resolve("nonexistent").is_none());
}

#[test]
fn test_token_binding_engine_empty() {
    let engine = TokenBindingEngine::from_config(&StringMap::new());
    assert!(engine.is_empty());
    assert!(engine.resolve("any-token").is_none());
}

#[test]
fn config_bindings_take_precedence() {
    let mut config = StringMap::new();
    config.insert(
        "shared".to_string(),
        TokenBindingConfig { index: Some("from_config".to_string()), ..Default::default() },
    );
    let conf = "[http://a]\ntoken = shared\nindex = from_file\nsource = file\n\
                [http://b]\ntoken = only\nSourceType = st\n";
    let engine = TokenBindingEngine::from_config_and_inputs_conf(&config, Some(conf)).unwrap();
    let shared = engine.resolve("shared").unwrap();
    assert_eq!(shared.index.as_deref(), Some("from_config"));
    assert_eq!(shared.source, None);
    let only = engine.clone();
    let only = only.resolve("only").unwrap();
    assert_eq!(only.index, None);
    assert_eq!(only.sourcetype.as_deref(), Some("st"));
    assert!(engine.resolve("Splunk only").is_none());
    let bare = TokenBindingEngine::from_config_and_inputs_conf(&config, None).unwrap();
    assert!(bare.resolve("only").is_none());
    assert!(!bare.is_empty());
}

#[test]
fn stanzas_keep_their_settings_apart() {
    let conf = "token = outside\n\
                [http://one]\r\nTOKEN = a=b \r\nindex=\nnonsense\n\
                [splunktcp]\ntoken = other\n\
                [http://two]\ndisabled = TRUE\ntoken = off\n\
                [http://three]\ndisabled = 1\ndisabled = no\ntoken = x\n\
                [http://four]\ntoken = x\nsource = last\n";
    let bindings = parse_inputs_conf(conf).unwrap();
    assert_eq!(bindings.len(), 2);
    let one = bindings.get("a=b").unwrap();
    assert_eq!(one.index.as_deref(), Some(""));
    assert_eq!(one.source, None);
    assert_eq!(bindings.get("x").unwrap().source.as_deref(), Some("last"));
    assert!(!bindings.contains_key("off"));
    assert!(!bindings.contains_key("other"));
    assert!(!bindings.contains_key("outside"));
}

#[test]
fn enabled_stanzas_without_a_token_are_named() {
    let conf = "[http]\nindex = global\n\
                [http://with]\ntoken = t\n\
                [http://without]\nindex = i\n\
                [http://off]\ndisabled = 1\n\
                [ http://spaced ]\nindex = i\n\
                # comment\n[http://last]\r\n";
    assert_eq!(tokenless_stanzas(conf), ["http://without", "http://last"]);
    assert_eq!(parse_inputs_conf(conf).unwrap().len(), 1);
    assert!(tokenless_stanzas("").is_empty());
    assert_eq!(tokenless_stanzas("[http://a]\n[http://a]\n"), ["http://a", "http://a"]);
}

#[test]
fn keys_are_lowered_beyond_ascii() {
    // The Kelvin sign is a K
    let bindings = parse_inputs_conf("[http://k]\nto\u{212a}en = t\n").unwrap();
    assert!(bindings.contains_key("t"));
}
