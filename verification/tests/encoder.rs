use ldap_codec::{encode, Value};

#[test]
fn encode_returns_not_implemented() {
    let inputs = vec![
        Value::Nil,
        Value::Int(0),
        Value::Str("anything".to_string()),
        Value::Bytes(vec![0x30, 0x03]),
        Value::List(vec![Value::Int(1), Value::Nil]),
        Value::Table(vec![("protocol_op".to_string(), Value::Int(1))]),
    ];
    for input in &inputs {
        let r = encode(input);
        assert_eq!(r.0, Value::Nil);
        assert_eq!(r.1, Value::Str("not yet implemented".to_string()));
    }
}
