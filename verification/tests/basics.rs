use splunk_hec_full::config::{
    default_false, default_socket_address, default_true, Kind, Meaning, Place, Resource,
    SocketAddress, SplunkHecFullConfig,
};
use splunk_hec_full::json::{parse_number, parse_values, JsonValue, Number};
use splunk_hec_full::log_event::{path_of, LegacyKey, LogEvent, LogNamespace, LogSchema};
use splunk_hec_full::string_map::StringMap;
use splunk_hec_full::text;
use splunk_hec_full::timestamp::{parse_timestamp, Timestamp};
use splunk_hec_full::value::EventValue;

fn chars(s: &str) -> Vec<char> {
    s.chars().collect()
}

#[test]
fn white_space_is_that_of_std() {
    for n in 0..=0x10ffff_u32 {
        if let Some(c) = char::from_u32(n) {
            assert_eq!(text::is_whitespace(c), c.is_whitespace(), "{n:x}");
        }
    }
}

#[test]
fn text_functions_agree_with_std() {
    for s in ["", " ", "a", "  a b ", "\u{3000}x\u{a0}", "a=b=c", "=", "ÄbC/", "a\nb\n\n"] {
        let cs = chars(s);
        assert_eq!(text::string_of(text::trim(&cs)), s.trim());
        let pieces: Vec<String> =
            text::split(&cs, '\n').iter().map(|p| text::string_of(p)).collect();
        assert_eq!(pieces, s.split('\n').collect::<Vec<_>>());
        let at = text::find(&cs, '=');
        assert_eq!(at, s.chars().position(|c| c == '=').unwrap_or(s.chars().count()));
        assert_eq!(text::string_of(&text::lowered(&cs)), s.to_ascii_lowercase());
        for part in ["", "a", "b=", "x\u{a0}", "zzzzzzzzzzzzzzz"] {
            assert_eq!(text::contains(&cs, &chars(part)), s.contains(part));
            assert_eq!(text::starts_with(&cs, &chars(part)), s.starts_with(part));
            assert_eq!(
                text::without_prefix(s, part),
                s.strip_prefix(part).map(String::from)
            );
            assert_eq!(text::str_eq(s, part), s == part);
            assert_eq!(text::concat(s, part), format!("{s}{part}"));
        }
    }
}

#[test]
fn whole_numbers_are_read_as_std_reads_them() {
    for s in [
        "0",
        "-0",
        "+7",
        "-1",
        "9223372036854775807",
        "9223372036854775808",
        "-9223372036854775808",
        "-9223372036854775809",
        "99999999999999999999999999999999",
        "000000000000000000000000000012",
        "",
        "+",
        "-",
        "1 ",
        "1.5",
        "--1",
        "٣",
    ] {
        assert_eq!(text::parse_i64(s), s.parse::<i64>().ok(), "{s:?}");
    }
}

#[test]
fn numbers_are_written_in_decimal() {
    for n in [0, 9, 10, 99, 100, 1234567890, u64::MAX] {
        assert_eq!(text::decimal_digits(n), n.to_string());
    }
}

#[test]
fn timestamps_go_by_their_size() {
    assert_eq!(parse_timestamp(-1), None);
    assert_eq!(parse_timestamp(0), Some(Timestamp { secs: 0, nanos: 0 }));
    assert_eq!(
        parse_timestamp(1609459200),
        Some(Timestamp { secs: 1609459200, nanos: 0 })
    );
    assert_eq!(
        parse_timestamp(13569465599),
        Some(Timestamp { secs: 13569465599, nanos: 0 })
    );
    assert_eq!(
        parse_timestamp(13569465600),
        Some(Timestamp { secs: 13569465, nanos: 600_000_000 })
    );
    assert_eq!(
        parse_timestamp(1609459200123),
        Some(Timestamp { secs: 1609459200, nanos: 123_000_000 })
    );
    assert_eq!(
        parse_timestamp(253402300799999),
        Some(Timestamp { secs: 253402300799, nanos: 999_000_000 })
    );
    assert_eq!(
        parse_timestamp(253402300800000),
        Some(Timestamp { secs: 253402, nanos: 300_800_000 })
    );
    assert_eq!(
        parse_timestamp(1609459200123456789),
        Some(Timestamp { secs: 1609459200, nanos: 123_456_789 })
    );
    assert_eq!(
        parse_timestamp(i64::MAX),
        Some(Timestamp { secs: 9223372036, nanos: 854_775_807 })
    );
}

#[test]
fn values_of_a_text_are_read_one_after_the_other() {
    let items = parse_values(r#" {"a":[1,-2,2.5,null,true,"x"]} 7 "#);
    assert_eq!(items.len(), 2);
    let first = items[0].as_ref().unwrap();
    assert_eq!(
        first.get("a"),
        Some(&JsonValue::Array(vec![
            JsonValue::Number(Number::PosInt(1)),
            JsonValue::Number(Number::NegInt(-2)),
            JsonValue::Number(Number::Double(2.5_f64.to_bits())),
            JsonValue::Null,
            JsonValue::Bool(true),
            JsonValue::Text("x".to_string()),
        ]))
    );
    assert_eq!(first.get("b"), None);
    assert_eq!(items[1], Some(JsonValue::Number(Number::PosInt(7))));
    assert_eq!(items[1].as_ref().unwrap().get("a"), None);
}

#[test]
fn what_is_no_value_is_an_error() {
    assert_eq!(parse_values(""), vec![]);
    assert_eq!(parse_values("  \n"), vec![]);
    assert_eq!(parse_values("{"), vec![None]);
    assert_eq!(
        parse_values("{} x"),
        vec![Some(JsonValue::Object(vec![])), None]
    );
}

#[test]
fn the_last_of_two_equal_names_counts() {
    let items = parse_values(r#"{"a":1,"a":2}"#);
    assert_eq!(
        items[0].as_ref().unwrap().get("a"),
        Some(&JsonValue::Number(Number::PosInt(2)))
    );
}

#[test]
fn numbers_of_serde_keep_their_kind() {
    let value = serde_json::Value::from(u64::MAX);
    assert_eq!(
        JsonValue::from_serde(value),
        JsonValue::Number(Number::PosInt(u64::MAX))
    );
    let value = serde_json::Value::from(i64::MIN);
    assert_eq!(
        JsonValue::from_serde(value),
        JsonValue::Number(Number::NegInt(i64::MIN))
    );
    assert_eq!(parse_number("12"), Some(Number::PosInt(12)));
    assert_eq!(parse_number("-12"), Some(Number::NegInt(-12)));
    assert_eq!(parse_number("1e3"), Some(Number::Double(1000.0_f64.to_bits())));
    assert_eq!(parse_number("soon"), None);
    assert_eq!(parse_number(""), None);
}

#[test]
fn json_becomes_values_of_events() {
    let items = parse_values(r#"{"n":18446744073709551615,"i":-5,"t":"é","o":{"x":[false]}}"#);
    let value = EventValue::from_json(items[0].as_ref().unwrap());
    assert_eq!(value.get("n"), Some(&EventValue::Bytes(b"18446744073709551615".to_vec())));
    assert_eq!(value.get("i"), Some(&EventValue::Integer(-5)));
    assert_eq!(value.get("t"), Some(&EventValue::Bytes("é".as_bytes().to_vec())));
    assert_eq!(
        value.get("o").unwrap().get("x"),
        Some(&EventValue::Array(vec![EventValue::Boolean(false)]))
    );
    assert_eq!(value.clone(), value);
}

#[test]
fn values_are_put_at_paths() {
    let path = vec!["a".to_string(), "b".to_string()];
    let mut value = EventValue::empty_object();
    assert!(!value.contains(&path));
    value.insert(&path, EventValue::Integer(1));
    assert!(value.contains(&path));
    assert_eq!(value.get("a").unwrap().get("b"), Some(&EventValue::Integer(1)));
    value.insert(&path_of("c"), EventValue::Integer(2));
    assert_eq!(value.get("a").unwrap().get("b"), Some(&EventValue::Integer(1)));
    // What is no object gives way to one
    value.insert(&vec!["c".to_string(), "d".to_string()], EventValue::Null);
    assert_eq!(value.get("c").unwrap().get("d"), Some(&EventValue::Null));
    let mut scalar = EventValue::text("gone");
    scalar.insert(&path_of("index"), EventValue::text("main"));
    assert_eq!(
        scalar,
        EventValue::Object(vec![("index".to_string(), EventValue::text("main"))])
    );
    scalar.insert(&vec![], EventValue::Null);
    assert_eq!(scalar, EventValue::Null);
}

#[test]
fn metadata_goes_where_the_namespace_says() {
    let key = path_of("host");
    let mut log = LogEvent::default();
    LogNamespace::Legacy.insert_source_metadata(
        &mut log,
        Some(LegacyKey::InsertIfEmpty(&key)),
        &key,
        EventValue::text("a"),
    );
    LogNamespace::Legacy.insert_source_metadata(
        &mut log,
        Some(LegacyKey::InsertIfEmpty(&key)),
        &key,
        EventValue::text("b"),
    );
    assert_eq!(log.get("host"), Some(&EventValue::text("a")));
    LogNamespace::Legacy.insert_source_metadata(
        &mut log,
        Some(LegacyKey::Overwrite(&key)),
        &key,
        EventValue::text("c"),
    );
    assert_eq!(log.get("host"), Some(&EventValue::text("c")));
    LogNamespace::Legacy.insert_source_metadata(&mut log, None, &key, EventValue::text("d"));
    assert_eq!(log.get("host"), Some(&EventValue::text("c")));
    LogNamespace::Vector.insert_source_metadata(&mut log, None, &key, EventValue::text("e"));
    assert_eq!(log.get("host"), Some(&EventValue::text("c")));
    assert_eq!(
        log.metadata.get("splunk_hec_full").unwrap().get("host"),
        Some(&EventValue::text("e"))
    );
}

#[test]
fn string_maps_hold_one_value_for_a_key() {
    let mut map: StringMap<u8> = StringMap::new();
    assert!(map.is_empty());
    map.insert("a".to_string(), 1);
    map.insert("b".to_string(), 2);
    map.insert("a".to_string(), 3);
    assert_eq!(map.len(), 2);
    assert_eq!(map.get("a"), Some(&3));
    assert_eq!(map.get("c"), None);
    assert!(map.contains_key("b"));
    assert_eq!(map.entry(0), (&"a".to_string(), &3));
    assert_eq!(map.clone().get("b"), Some(&2));
}

#[test]
fn settings_have_defaults() {
    let config = SplunkHecFullConfig::default();
    assert_eq!(config.address, SocketAddress::V4 { ipv4: 0, port: 8088 });
    assert_eq!(default_socket_address(), config.address);
    assert!(default_true());
    assert!(!default_false());
    assert_eq!(config.token, None);
    assert_eq!(config.valid_tokens, None);
    assert!(!config.store_hec_token);
    assert!(!config.allow_query_string_auth);
    assert!(config.auto_forward_metadata);
    assert!(config.fix_bare_string_events);
    assert!(config.raw_require_channel);
    assert!(!config.raw_line_splitting);
    assert_eq!(config.resources(), vec![Resource::Tcp(config.address)]);
    assert!(config.can_acknowledge());
}

#[test]
fn outputs_are_declared_for_the_namespace() {
    let schema = LogSchema::default();
    let config = SplunkHecFullConfig::default();
    let legacy = config.outputs(&schema, LogNamespace::Legacy);
    assert_eq!(legacy.log_namespace, LogNamespace::Legacy);
    assert_eq!(legacy.kind, Kind::AnyObject);
    assert_eq!(legacy.meaning, None);
    let paths: Vec<&str> = legacy.fields.iter().map(|f| f.path[0].as_str()).collect();
    assert_eq!(
        paths,
        [
            "line",
            "message",
            "source_type",
            "timestamp",
            "host",
            "splunk_channel",
            "splunk_index",
            "splunk_source",
            "splunk_sourcetype",
        ]
    );
    assert!(legacy.fields.iter().all(|f| f.place == Place::Event));
    assert_eq!(legacy.fields[1].meaning, Some(Meaning::Message));

    let config = SplunkHecFullConfig { log_namespace: Some(true), ..config };
    let vector = config.outputs(&schema, LogNamespace::Legacy);
    assert_eq!(vector.log_namespace, LogNamespace::Vector);
    assert_eq!(vector.kind, Kind::BytesOrObject);
    assert_eq!(vector.meaning, Some(Meaning::Message));
    let paths: Vec<String> = vector.fields.iter().map(|f| f.path.join(".")).collect();
    assert_eq!(
        paths,
        [
            "vector.source_type",
            "vector.ingest_timestamp",
            "splunk_hec_full.host",
            "splunk_hec_full.channel",
            "splunk_hec_full.index",
            "splunk_hec_full.source",
            "splunk_hec_full.sourcetype",
        ]
    );
    assert!(vector.fields.iter().all(|f| f.place == Place::Metadata));
    assert_eq!(vector.fields[5].meaning, Some(Meaning::Service));

    let bare = LogSchema { message_key: None, host_key: None, ..LogSchema::default() };
    let config = SplunkHecFullConfig { log_namespace: Some(false), ..config };
    assert_eq!(config.outputs(&bare, LogNamespace::Vector).fields.len(), 7);
}
