use provisioner::message::{parse_creation_message, parse_deletion_message};

fn creation(raw: &str) -> Option<(Vec<u8>, i64, i64, i64)> {
    parse_creation_message(&raw.as_bytes().to_vec())
        .map(|m| (m.identifier, m.cpu_limit, m.ram_limit, m.disk_size))
}

#[test]
fn creation_message_with_all_fields() {
    let m = creation(r#"{"identifier":"c1","cpu_limit":4,"ram_limit":8,"disk_size":50}"#)
        .expect("well-formed message");
    assert_eq!(m.0, b"c1".to_vec());
    assert_eq!(m.1, 4);
    assert_eq!(m.2, 8);
    assert_eq!(m.3, 50);
}

#[test]
fn creation_message_defaults_for_missing_fields() {
    let m = creation("{}").expect("an empty object is well-formed");
    assert_eq!(m.0, b"default-cluster".to_vec());
    assert_eq!(m.1, 2);
    assert_eq!(m.2, 2);
    assert_eq!(m.3, 10);
}

#[test]
fn creation_message_accepts_extra_fields_and_whitespace() {
    let raw = "{ \"event\": \"ClusterCreated\", \"identifier\": \"abc-1\",\n  \"name\": \"demo\", \"cpu_limit\": 4.0, \"ram_limit\": 8.0,\n  \"disk_size\": 50, \"timestamp\": \"2026-01-01T00:00:00Z\" }";
    let m = creation(raw).expect("well-formed message");
    assert_eq!(m.0, b"abc-1".to_vec());
    assert_eq!(m.1, 4);
    assert_eq!(m.2, 8);
    assert_eq!(m.3, 50);
}

#[test]
fn numbers_round_to_nearest_ties_away_from_zero() {
    let m = creation(r#"{"cpu_limit":2.5,"ram_limit":2.4}"#).unwrap();
    assert_eq!(m.1, 3);
    assert_eq!(m.2, 2);
    let m = creation(r#"{"cpu_limit":-2.5,"ram_limit":2.51}"#).unwrap();
    assert_eq!(m.1, -3);
    assert_eq!(m.2, 3);
}

#[test]
fn fractional_disk_size_takes_the_default() {
    let m = creation(r#"{"disk_size":50.5}"#).unwrap();
    assert_eq!(m.3, 10);
    let m = creation(r#"{"disk_size":50.0}"#).unwrap();
    assert_eq!(m.3, 50);
}

#[test]
fn wrongly_typed_fields_take_defaults() {
    let m = creation(r#"{"identifier":7,"cpu_limit":"four","ram_limit":null,"disk_size":true}"#)
        .unwrap();
    assert_eq!(m.0, b"default-cluster".to_vec());
    assert_eq!(m.1, 2);
    assert_eq!(m.2, 2);
    assert_eq!(m.3, 10);
}

#[test]
fn last_occurrence_of_a_field_wins() {
    let m = creation(r#"{"cpu_limit":1,"cpu_limit":6}"#).unwrap();
    assert_eq!(m.1, 6);
}

#[test]
fn malformed_payloads_are_rejected() {
    assert!(creation("").is_none());
    assert!(creation("not json").is_none());
    assert!(creation(r#"{"identifier":"c1""#).is_none());
    assert!(creation(r#"{"identifier":"c1",}"#).is_none());
    assert!(creation(r#"{"nested":{"a":1}}"#).is_none());
    assert!(creation(r#"{"list":[1,2]}"#).is_none());
    assert!(creation(r#"{"identifier":"c1"} extra"#).is_none());
    assert!(creation(r#"{"esc":"a\"b"}"#).is_none());
}

#[test]
fn out_of_range_numbers_are_rejected() {
    assert!(creation(r#"{"cpu_limit":9223372036854775808}"#).is_none());
    let m = creation(r#"{"cpu_limit":9223372036854775807}"#).unwrap();
    assert_eq!(m.1, i64::MAX);
    assert!(creation(r#"{"cpu_limit":9223372036854775806.5}"#).unwrap().1 == i64::MAX);
    assert!(creation(r#"{"cpu_limit":9223372036854775807.5}"#).is_none());
}

#[test]
fn deletion_message_takes_identifier() {
    let raw = br#"{"event":"ClusterDeleted","identifier":"c9"}"#.to_vec();
    let m = parse_deletion_message(&raw).expect("well-formed message");
    assert_eq!(m.identifier, b"c9".to_vec());
}

#[test]
fn deletion_message_without_identifier_takes_placeholder() {
    let m = parse_deletion_message(&b"{}".to_vec()).unwrap();
    assert_eq!(m.identifier, b"unknown-cluster".to_vec());
}

#[test]
fn scalar_values_true_false_null_parse() {
    let m = creation(r#"{"a":true,"b":false,"c":null,"identifier":"x"}"#).unwrap();
    assert_eq!(m.0, b"x".to_vec());
}

#[test]
fn negative_whole_numbers_parse() {
    let m = creation(r#"{"cpu_limit":-3}"#).unwrap();
    assert_eq!(m.1, -3);
}
