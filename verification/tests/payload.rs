use message_payload::codec::DecodeError;
use message_payload::data::{Data, Init, PostInit, Query, Test};
use message_payload::host::HostValue;
use message_payload::timestamp::Timestamp;

fn key(k: &str) -> String {
    String::from(k)
}

fn sample_init() -> Init {
    Init {
        server_name: key("Server1"),
        price_per_object: 1.5f32.to_bits(),
        territory_lifetime: 30.0f32.to_bits(),
        territory_data: key("std"),
        server_start_time: Timestamp::new(1609459200, 0).unwrap(),
        extension_version: key("1.0.0"),
    }
}

fn sample_post_init(admins: Vec<String>) -> PostInit {
    PostInit {
        gambling_modifier: 2,
        gambling_payout: 95,
        gambling_randomizer_max: 1.0f64.to_bits(),
        gambling_randomizer_mid: 0.5f64.to_bits(),
        gambling_randomizer_min: 0.1f64.to_bits(),
        gambling_win_chance: 35,
        logging_add_player_to_territory: true,
        logging_demote_player: false,
        logging_exec: true,
        logging_gamble: false,
        logging_modify_player: true,
        logging_pay_territory: false,
        logging_promote_player: true,
        logging_remove_player_from_territory: false,
        logging_reward: true,
        logging_transfer: false,
        logging_upgrade_territory: true,
        max_payment_count: 10,
        territory_payment_tax: 5,
        territory_upgrade_tax: 7,
        territory_admins: admins,
    }
}

fn sample_query() -> Query {
    Query {
        name: key("territories"),
        arguments: vec![(key("uid"), key("76561197960287930"))],
    }
}

fn entry_of(value: &HostValue, field: &str) -> HostValue {
    match value {
        HostValue::Object(entries) => {
            for (k, v) in entries {
                if k == field {
                    return v.deep_clone();
                }
            }
            panic!("field {} not found", field);
        }
        _ => panic!("not an object"),
    }
}

// HostValue has no Clone impl; rebuild a value from its parts instead.
trait DeepClone {
    fn deep_clone(&self) -> HostValue;
}

impl DeepClone for HostValue {
    fn deep_clone(&self) -> HostValue {
        match self {
            HostValue::Bool(b) => HostValue::Bool(*b),
            HostValue::Int(n) => HostValue::Int(*n),
            HostValue::Single(f) => HostValue::Single(*f),
            HostValue::Double(f) => HostValue::Double(*f),
            HostValue::Str(s) => HostValue::Str(s.clone()),
            HostValue::List(items) => {
                HostValue::List(items.iter().map(|i| i.deep_clone()).collect())
            }
            HostValue::Object(entries) => HostValue::Object(
                entries
                    .iter()
                    .map(|(k, v)| (k.clone(), v.deep_clone()))
                    .collect(),
            ),
        }
    }
}

#[test]
fn test_retrieve_data() {
    let data = Data::Test(Test { foo: "testing".into() });
    let result = data.extract_test().unwrap();
    assert_eq!(result.foo, String::from("testing"));
}

#[test]
fn extraction_returns_each_record() {
    let t = Test { foo: key("x") };
    assert_eq!(Data::Test(t.clone()).extract_test().unwrap(), t);
    let i = sample_init();
    assert_eq!(Data::Init(i.clone()).extract_init().unwrap(), i);
    let p = sample_post_init(vec![key("a")]);
    assert_eq!(Data::PostInit(p.clone()).extract_post_init().unwrap(), p);
    let q = sample_query();
    assert_eq!(Data::Query(q.clone()).extract_query().unwrap(), q);
}

#[test]
fn extraction_mismatch_is_an_error() {
    let err = Data::Test(Test { foo: key("x") }).extract_init().unwrap_err();
    assert_eq!(err.expected, key("Init"));
    assert_eq!(err.actual, key("Test"));

    let err = Data::Empty.extract_test().unwrap_err();
    assert_eq!(err.expected, key("Test"));
    assert_eq!(err.actual, key("Empty"));

    let err = Data::Init(sample_init()).extract_query().unwrap_err();
    assert_eq!(err.expected, key("Query"));
    assert_eq!(err.actual, key("Init"));

    let err = Data::Query(sample_query()).extract_post_init().unwrap_err();
    assert_eq!(err.expected, key("PostInit"));
    assert_eq!(err.actual, key("Query"));
}

#[test]
fn empty_payload_renders_as_empty_container() {
    let v = Data::Empty.to_host_value();
    assert_eq!(v, HostValue::Object(vec![]));
}

#[test]
fn default_payload_is_empty() {
    assert_eq!(Data::default(), Data::Empty);
}

#[test]
fn round_trip_every_variant() {
    let cases = vec![
        Data::Empty,
        Data::Test(Test { foo: key("testing") }),
        Data::Init(sample_init()),
        Data::PostInit(sample_post_init(vec![key("a"), key("b")])),
        Data::Query(sample_query()),
    ];
    for d in cases {
        let encoded = d.encode();
        let decoded = Data::decode(&encoded).unwrap();
        assert_eq!(decoded, d);
    }
}

#[test]
fn admin_order_is_preserved() {
    let ab = Data::PostInit(sample_post_init(vec![key("a"), key("b")]));
    let ba = Data::PostInit(sample_post_init(vec![key("b"), key("a")]));
    assert_ne!(ab.to_host_value(), ba.to_host_value());
    let back = Data::decode(&ab.encode()).unwrap();
    match back {
        Data::PostInit(p) => assert_eq!(p.territory_admins, vec![key("a"), key("b")]),
        _ => panic!("wrong variant"),
    }
}

#[test]
fn query_scenario_renders_expected_shape() {
    let d = Data::Query(sample_query());
    let v = d.encode();
    assert_eq!(entry_of(&v, "type"), HostValue::Str(key("query")));
    let content = entry_of(&v, "content");
    let expected = HostValue::Object(vec![
        (key("name"), HostValue::Str(key("territories"))),
        (
            key("arguments"),
            HostValue::Object(vec![(key("uid"), HostValue::Str(key("76561197960287930")))]),
        ),
    ]);
    assert_eq!(content, expected);
}

#[test]
fn init_scenario_renders_rfc3339_start_time() {
    let d = sample_init();
    let v = d.to_host_value();
    let start = entry_of(&v, "server_start_time");
    assert_eq!(start, HostValue::Str(key("2021-01-01T00:00:00+00:00")));
    let from_chrono = chrono::DateTime::<chrono::Utc>::from_timestamp(1609459200, 0)
        .unwrap()
        .to_rfc3339();
    assert_eq!(start, HostValue::Str(from_chrono));
}

#[test]
fn decode_rejects_non_object() {
    assert_eq!(
        Data::decode(&HostValue::Bool(true)).unwrap_err(),
        DecodeError::NotAnObject
    );
}

#[test]
fn decode_rejects_missing_type() {
    let v = HostValue::Object(vec![]);
    assert_eq!(Data::decode(&v).unwrap_err(), DecodeError::MissingField);
}

#[test]
fn decode_rejects_non_string_type() {
    let v = HostValue::Object(vec![(key("type"), HostValue::Int(3))]);
    assert_eq!(Data::decode(&v).unwrap_err(), DecodeError::WrongFieldType);
}

#[test]
fn decode_rejects_unknown_tag() {
    let v = HostValue::Object(vec![(key("type"), HostValue::Str(key("mystery")))]);
    assert_eq!(Data::decode(&v).unwrap_err(), DecodeError::UnknownTag);
}

#[test]
fn decode_rejects_missing_content() {
    let v = HostValue::Object(vec![(key("type"), HostValue::Str(key("test")))]);
    assert_eq!(Data::decode(&v).unwrap_err(), DecodeError::MissingField);
}

#[test]
fn decode_rejects_missing_field_in_content() {
    let v = HostValue::Object(vec![
        (key("type"), HostValue::Str(key("test"))),
        (key("content"), HostValue::Object(vec![])),
    ]);
    assert_eq!(Data::decode(&v).unwrap_err(), DecodeError::MissingField);
}

#[test]
fn decode_rejects_wrong_field_type_in_content() {
    let v = HostValue::Object(vec![
        (key("type"), HostValue::Str(key("test"))),
        (
            key("content"),
            HostValue::Object(vec![(key("foo"), HostValue::Int(1))]),
        ),
    ]);
    assert_eq!(Data::decode(&v).unwrap_err(), DecodeError::WrongFieldType);
}

#[test]
fn decode_rejects_duplicate_argument_keys() {
    let args = HostValue::Object(vec![
        (key("uid"), HostValue::Str(key("1"))),
        (key("uid"), HostValue::Str(key("2"))),
    ]);
    let content = HostValue::Object(vec![
        (key("name"), HostValue::Str(key("territories"))),
        (key("arguments"), args),
    ]);
    let v = HostValue::Object(vec![
        (key("type"), HostValue::Str(key("query"))),
        (key("content"), content),
    ]);
    assert_eq!(Data::decode(&v).unwrap_err(), DecodeError::DuplicateKey);
}

#[test]
fn decode_rejects_bad_timestamp() {
    let mut init = Data::Init(sample_init()).encode();
    // replace the content's server_start_time with a malformed string
    if let HostValue::Object(entries) = &mut init {
        for (k, v) in entries.iter_mut() {
            if k == "content" {
                if let HostValue::Object(fields) = v {
                    for (fk, fv) in fields.iter_mut() {
                        if fk == "server_start_time" {
                            *fv = HostValue::Str(key("yesterday"));
                        }
                    }
                }
            }
        }
    }
    assert_eq!(Data::decode(&init).unwrap_err(), DecodeError::InvalidTimestamp);
}

#[test]
fn decode_parses_rfc3339_start_time() {
    let content = HostValue::Object(vec![
        (key("server_name"), HostValue::Str(key("Server1"))),
        (
            key("price_per_object"),
            HostValue::Single(message_payload::host::Float32 { bits: 1.5f32.to_bits() }),
        ),
        (
            key("territory_lifetime"),
            HostValue::Single(message_payload::host::Float32 { bits: 30.0f32.to_bits() }),
        ),
        (key("territory_data"), HostValue::Str(key("std"))),
        (
            key("server_start_time"),
            HostValue::Str(key("2021-01-01T00:00:00+00:00")),
        ),
        (key("extension_version"), HostValue::Str(key("1.0.0"))),
    ]);
    let v = HostValue::Object(vec![
        (key("type"), HostValue::Str(key("init"))),
        (key("content"), content),
    ]);
    match Data::decode(&v).unwrap() {
        Data::Init(init) => {
            assert_eq!(init.server_start_time.epoch_seconds, 1609459200);
            assert_eq!(init.server_start_time.nanos, 0);
        }
        _ => panic!("wrong variant"),
    }
}

#[test]
fn decode_accepts_empty_with_or_without_content() {
    let bare = HostValue::Object(vec![(key("type"), HostValue::Str(key("empty")))]);
    assert_eq!(Data::decode(&bare).unwrap(), Data::Empty);
    let with_content = HostValue::Object(vec![
        (key("type"), HostValue::Str(key("empty"))),
        (key("content"), HostValue::Object(vec![])),
    ]);
    assert_eq!(Data::decode(&with_content).unwrap(), Data::Empty);
}

#[test]
fn event_renders_its_fields() {
    let e = message_payload::data::Event {
        event_type: key("player_joined"),
        triggered_at: Timestamp::new(1609459200, 500_000_000).unwrap(),
    };
    let v = e.to_host_value();
    assert_eq!(entry_of(&v, "event_type"), HostValue::Str(key("player_joined")));
    assert_eq!(
        entry_of(&v, "triggered_at"),
        HostValue::Str(key("2021-01-01T00:00:00.500+00:00"))
    );
}

#[test]
fn timestamp_range_covers_four_digit_years() {
    // 0000-01-01T00:00:00Z and 9999-12-31T23:59:59Z are the supported ends.
    assert!(Timestamp::new(-62_167_219_200, 0).is_some());
    assert!(Timestamp::new(253_402_300_799, 999_999_999).is_some());
    assert!(Timestamp::new(-62_167_219_201, 0).is_none());
    assert!(Timestamp::new(253_402_300_800, 0).is_none());
    assert!(Timestamp::new(0, 1_000_000_000).is_none());
}

#[test]
fn round_trip_at_timestamp_bounds() {
    let mut init = sample_init();
    init.server_start_time = Timestamp::new(253_402_300_799, 0).unwrap();
    let d = Data::Init(init);
    let v = d.encode();
    assert_eq!(Data::decode(&v).unwrap(), d);
    let content = entry_of(&v, "content");
    assert_eq!(
        entry_of(&content, "server_start_time"),
        HostValue::Str(key("9999-12-31T23:59:59+00:00"))
    );

    let mut init = sample_init();
    init.server_start_time = Timestamp::new(-62_167_219_200, 0).unwrap();
    let d = Data::Init(init);
    assert_eq!(Data::decode(&d.encode()).unwrap(), d);
}
