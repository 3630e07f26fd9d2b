use eve_sqlite::classify::{classify, storage_address, Record, RecordError};
use eve_sqlite::eve::{event_statement, ALERT_INSERT, FLOW_INSERT, OTHER_INSERT};

#[test]
fn ipv4_address_is_stored_unbracketed() {
    assert_eq!(storage_address("10.0.0.1"), Ok("10.0.0.1".to_string()));
}

#[test]
fn ipv6_address_is_stored_bracketed() {
    assert_eq!(storage_address("2001:db8::1"), Ok("[2001:db8::1]".to_string()));
}

#[test]
fn ipv6_address_is_rendered_canonically() {
    assert_eq!(storage_address("2001:0db8:0:0::1"), Ok("[2001:db8::1]".to_string()));
}

#[test]
fn malformed_address_is_fatal() {
    assert_eq!(storage_address("10.0.0.256"), Err(RecordError::MalformedAddress));
    assert_eq!(storage_address("not-an-ip"), Err(RecordError::MalformedAddress));
    assert_eq!(storage_address(""), Err(RecordError::MalformedAddress));
}

#[test]
fn flow_record_yields_both_addresses() {
    let buf = r#"{"event_type":"flow","flow_id":7,"src_ip":"10.0.0.1","src_port":1234,"dest_ip":"10.0.0.2","dest_port":80,"proto":"TCP"}"#;
    assert_eq!(
        classify(buf),
        Ok(Record::Flow { src_ip: "10.0.0.1".to_string(), dest_ip: "10.0.0.2".to_string() })
    );
}

#[test]
fn flow_record_with_ipv6_addresses() {
    let buf = r#"{"timestamp":"x","event_type":"flow","src_ip":"fe80::1","dest_ip":"::1"}"#;
    assert_eq!(
        classify(buf),
        Ok(Record::Flow { src_ip: "[fe80::1]".to_string(), dest_ip: "[::1]".to_string() })
    );
}

#[test]
fn alert_record_is_classified() {
    let buf = r#"{"timestamp":"2024-01-02T03:04:05.123456+00:00","flow_id":1,"event_type":"alert","alert":{}}"#;
    assert_eq!(classify(buf), Ok(Record::Alert));
}

#[test]
fn other_record_keeps_its_type_tag() {
    let buf = r#"{"timestamp":"t","flow_id":1,"event_type":"dns","dns":{"type":"query"}}"#;
    assert_eq!(classify(buf), Ok(Record::Other { event_type: "dns".to_string() }));
}

#[test]
fn spaced_marker_is_accepted() {
    let buf = r#"{"timestamp": "t", "event_type": "http", "http": {}}"#;
    assert_eq!(classify(buf), Ok(Record::Other { event_type: "http".to_string() }));
}

#[test]
fn compact_marker_wins_over_spaced_marker() {
    let buf = r#"{"a": 1, "event_type": "http","event_type":"tls"}"#;
    assert_eq!(classify(buf), Ok(Record::Other { event_type: "tls".to_string() }));
}

#[test]
fn record_without_type_tag_is_untyped() {
    assert_eq!(classify(r#"{"stats":{"uptime":10}}"#), Ok(Record::Untyped));
    assert_eq!(classify(""), Ok(Record::Untyped));
    assert_eq!(classify(r#"{"event_type":"flow"#), Ok(Record::Untyped));
}

#[test]
fn flow_without_source_address_is_fatal() {
    let buf = r#"{"event_type":"flow","dest_ip":"10.0.0.2"}"#;
    assert_eq!(classify(buf), Err(RecordError::MissingSourceAddress));
}

#[test]
fn flow_without_destination_address_is_fatal() {
    let buf = r#"{"event_type":"flow","src_ip":"10.0.0.1"}"#;
    assert_eq!(classify(buf), Err(RecordError::MissingDestinationAddress));
}

#[test]
fn flow_with_malformed_address_is_fatal() {
    let buf = r#"{"event_type":"flow","src_ip":"10.0.0.x","dest_ip":"10.0.0.2"}"#;
    assert_eq!(classify(buf), Err(RecordError::MalformedAddress));
}

#[test]
fn statements_follow_the_record_category() {
    let buf = "{}";
    assert!(event_statement(buf, &Record::Untyped).is_none());
    let flow = Record::Flow { src_ip: "a".to_string(), dest_ip: "b".to_string() };
    assert_eq!(event_statement(buf, &flow), Some((FLOW_INSERT, vec!["{}", "a", "b"])));
    assert_eq!(event_statement(buf, &Record::Alert), Some((ALERT_INSERT, vec!["{}", "alert"])));
    let other = Record::Other { event_type: "dns".to_string() };
    assert_eq!(event_statement(buf, &other), Some((OTHER_INSERT, vec!["{}", "dns"])));
}
