use bytes::Bytes;
use ldap_codec::{decode, Value};
use rasn_ldap::{
    BindResponse, DelRequest, LdapMessage, LdapString, ProtocolOp, ResultCode, SearchResultDone,
    SearchResultReference,
};

fn get<'a>(v: &'a Value, key: &str) -> Option<&'a Value> {
    match v {
        Value::Table(entries) => entries.iter().find(|e| e.0 == key).map(|e| &e.1),
        _ => None,
    }
}

fn encode_message(op: ProtocolOp) -> Vec<u8> {
    rasn::der::encode(&LdapMessage::new(1, op)).expect("encoding a well-formed message succeeds")
}

fn assert_exclusive(pair: &(Value, Value)) {
    assert!((pair.0 == Value::Nil) != (pair.1 == Value::Nil));
}

#[test]
fn type_gate_integer_input() {
    let r = decode(&Value::Int(42));
    assert_eq!(r.0, Value::Nil);
    assert_eq!(r.1, Value::Str("wrong format on input data".to_string()));
}

#[test]
fn type_gate_table_input() {
    let input = Value::Table(vec![("k".to_string(), Value::Int(1))]);
    let r = decode(&input);
    assert_eq!(r.0, Value::Nil);
    assert_eq!(r.1, Value::Str("wrong format on input data".to_string()));
}

#[test]
fn malformed_der_single_zero_byte() {
    let r = decode(&Value::Bytes(vec![0x00]));
    assert_eq!(r.0, Value::Nil);
    match &r.1 {
        Value::Str(msg) => assert!(!msg.is_empty()),
        other => panic!("expected a diagnostic string, got {:?}", other),
    }
}

#[test]
fn malformed_der_truncated_buffer() {
    let mut der = encode_message(ProtocolOp::BindResponse(BindResponse::new(
        ResultCode::Success,
        LdapString::from("dc=example,dc=com"),
        LdapString::from(""),
        None,
        None,
    )));
    der.truncate(der.len() - 3);
    let r = decode(&Value::Bytes(der));
    assert_eq!(r.0, Value::Nil);
    match &r.1 {
        Value::Str(msg) => assert!(!msg.is_empty()),
        other => panic!("expected a diagnostic string, got {:?}", other),
    }
}

#[test]
fn bind_response_mapping() {
    let der = encode_message(ProtocolOp::BindResponse(BindResponse::new(
        ResultCode::Success,
        LdapString::from("dc=example,dc=com"),
        LdapString::from(""),
        None,
        None,
    )));
    let r = decode(&Value::Bytes(der));
    assert_eq!(r.1, Value::Nil);
    assert_eq!(get(&r.0, "protocol_op"), Some(&Value::Int(1)));
    assert_eq!(get(&r.0, "result_code"), Some(&Value::Int(0)));
    assert_eq!(
        get(&r.0, "matched_dn"),
        Some(&Value::Str("dc=example,dc=com".to_string()))
    );
    assert_eq!(get(&r.0, "diagnostic_msg"), Some(&Value::Str(String::new())));
}

#[test]
fn search_result_done_mapping() {
    let der = encode_message(ProtocolOp::SearchResDone(SearchResultDone(
        rasn_ldap::LdapResult::new(
            ResultCode::NoSuchObject,
            LdapString::from("dc=example,dc=com"),
            LdapString::from("no entry found"),
        ),
    )));
    let r = decode(&Value::Bytes(der));
    assert_eq!(r.1, Value::Nil);
    assert_eq!(get(&r.0, "protocol_op"), Some(&Value::Int(5)));
    assert_eq!(get(&r.0, "result_code"), Some(&Value::Int(32)));
    assert_eq!(
        get(&r.0, "matched_dn"),
        Some(&Value::Str("dc=example,dc=com".to_string()))
    );
    assert_eq!(
        get(&r.0, "diagnostic_msg"),
        Some(&Value::Str("no entry found".to_string()))
    );
}

#[test]
fn modify_response_mapping() {
    let der = encode_message(ProtocolOp::ModifyResponse(rasn_ldap::ModifyResponse(
        rasn_ldap::LdapResult::new(
            ResultCode::Success,
            LdapString::from(""),
            LdapString::from(""),
        ),
    )));
    let r = decode(&Value::Bytes(der));
    assert_eq!(r.1, Value::Nil);
    assert_eq!(get(&r.0, "protocol_op"), Some(&Value::Int(7)));
    assert_eq!(get(&r.0, "result_code"), Some(&Value::Int(0)));
}

// One complete message holding a search result entry for
// cn=alice,dc=example,dc=com with the attributes cn -> ["alice"] and
// mail -> ["alice@example.com", "a@example.com"], written out byte by byte
// so that the wire order of the two mail values is fixed.
fn search_entry_der() -> Vec<u8> {
    let mut der = vec![0x30, 0x5E];
    der.extend_from_slice(&[0x02, 0x01, 0x02]);
    der.extend_from_slice(&[0x64, 0x59]);
    der.extend_from_slice(&[0x04, 0x1A]);
    der.extend_from_slice(b"cn=alice,dc=example,dc=com");
    der.extend_from_slice(&[0x30, 0x3B]);
    der.extend_from_slice(&[0x30, 0x0D, 0x04, 0x02]);
    der.extend_from_slice(b"cn");
    der.extend_from_slice(&[0x31, 0x07, 0x04, 0x05]);
    der.extend_from_slice(b"alice");
    der.extend_from_slice(&[0x30, 0x2A, 0x04, 0x04]);
    der.extend_from_slice(b"mail");
    der.extend_from_slice(&[0x31, 0x22, 0x04, 0x11]);
    der.extend_from_slice(b"alice@example.com");
    der.extend_from_slice(&[0x04, 0x0D]);
    der.extend_from_slice(b"a@example.com");
    der
}

#[test]
fn search_result_entry_attribute_grouping() {
    let r = decode(&Value::Bytes(search_entry_der()));
    assert_eq!(r.1, Value::Nil);
    assert_eq!(get(&r.0, "protocol_op"), Some(&Value::Int(4)));
    assert_eq!(
        get(&r.0, "entry_dn"),
        Some(&Value::Str("cn=alice,dc=example,dc=com".to_string()))
    );
    let attrs = get(&r.0, "attributes").expect("the entry carries attributes");
    assert_eq!(
        get(attrs, "cn"),
        Some(&Value::List(vec![Value::Str("alice".to_string())]))
    );
    assert_eq!(
        get(attrs, "mail"),
        Some(&Value::List(vec![
            Value::Str("alice@example.com".to_string()),
            Value::Str("a@example.com".to_string()),
        ]))
    );
}

// An entry whose wire data repeats the attribute type name "cn", first with
// the value "alice", then with the value "bob": the later write wins.
#[test]
fn duplicate_attribute_name_last_write_wins() {
    let mut der = vec![0x30, 0x2D];
    der.extend_from_slice(&[0x02, 0x01, 0x02]);
    der.extend_from_slice(&[0x64, 0x28]);
    der.extend_from_slice(&[0x04, 0x08]);
    der.extend_from_slice(b"cn=alice");
    der.extend_from_slice(&[0x30, 0x1C]);
    der.extend_from_slice(&[0x30, 0x0D, 0x04, 0x02]);
    der.extend_from_slice(b"cn");
    der.extend_from_slice(&[0x31, 0x07, 0x04, 0x05]);
    der.extend_from_slice(b"alice");
    der.extend_from_slice(&[0x30, 0x0B, 0x04, 0x02]);
    der.extend_from_slice(b"cn");
    der.extend_from_slice(&[0x31, 0x05, 0x04, 0x03]);
    der.extend_from_slice(b"bob");
    let r = decode(&Value::Bytes(der));
    assert_eq!(r.1, Value::Nil);
    let attrs = get(&r.0, "attributes").expect("the entry carries attributes");
    assert_eq!(
        attrs,
        &Value::Table(vec![(
            "cn".to_string(),
            Value::List(vec![Value::Str("bob".to_string())]),
        )])
    );
}

#[test]
fn search_result_entry_invalid_utf8_value() {
    let entry = rasn_ldap::SearchResultEntry::new(
        LdapString::from("cn=alice"),
        vec![rasn_ldap::PartialAttribute::new(
            LdapString::from("photo"),
            rasn::types::SetOf::from_vec(vec![Bytes::from(vec![0xFF, 0xFE, 0x00]).into()]),
        )],
    );
    let der = encode_message(ProtocolOp::SearchResEntry(entry));
    let r = decode(&Value::Bytes(der));
    assert_eq!(r.0, Value::Nil);
    assert_eq!(r.1, Value::Str("invalid text encoding".to_string()));
}

#[test]
fn search_result_reference_unsupported() {
    let der = encode_message(ProtocolOp::SearchResRef(SearchResultReference(vec![
        LdapString::from("ldap://other.example.com/dc=example,dc=com"),
    ])));
    let r = decode(&Value::Bytes(der));
    assert_eq!(r.0, Value::Nil);
    assert_eq!(
        r.1,
        Value::Str("decoder not yet implement: search result reference".to_string())
    );
}

#[test]
fn other_operation_unsupported() {
    let der = encode_message(ProtocolOp::DelRequest(DelRequest(LdapString::from(
        "cn=alice,dc=example,dc=com",
    ))));
    let r = decode(&Value::Bytes(der));
    assert_eq!(r.0, Value::Nil);
    assert_eq!(r.1, Value::Str("decoder not yet implement".to_string()));
}

#[test]
fn decode_is_idempotent() {
    let der = encode_message(ProtocolOp::BindResponse(BindResponse::new(
        ResultCode::Busy,
        LdapString::from("ou=people,dc=example,dc=com"),
        LdapString::from("try again"),
        None,
        None,
    )));
    let first = decode(&Value::Bytes(der.clone()));
    let second = decode(&Value::Bytes(der));
    assert_eq!(first, second);
    let bad_first = decode(&Value::Bytes(vec![0x00]));
    let bad_second = decode(&Value::Bytes(vec![0x00]));
    assert_eq!(bad_first, bad_second);
}

#[test]
fn decode_pair_is_exclusive() {
    let inputs = vec![
        Value::Int(7),
        Value::Nil,
        Value::Str("text".to_string()),
        Value::Bytes(vec![]),
        Value::Bytes(vec![0x00]),
        Value::Bytes(search_entry_der()),
        Value::Bytes(encode_message(ProtocolOp::BindResponse(BindResponse::new(
            ResultCode::Success,
            LdapString::from(""),
            LdapString::from(""),
            None,
            None,
        )))),
    ];
    for input in &inputs {
        assert_exclusive(&decode(input));
    }
}
