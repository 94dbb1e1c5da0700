//! The bytecode constant encoding round-trips every encodable kind.

use minilang::byte_code::{
    get_raw_boolean, get_raw_float, get_raw_int, get_raw_string, get_raw_usize, obj_from_boolean,
    obj_from_float, obj_from_int, obj_from_string, raw_from_usize,
};
use minilang::object::{Object, TypeCode, Value};

#[test]
fn int_round_trip() {
    for &v in &[0i64, 1, -1, 42, -987654321, i64::MAX, i64::MIN] {
        let code = obj_from_int(v);
        assert_eq!(code.len(), 9);
        assert_eq!(code[0], TypeCode::Int.to_byte());
        let (decoded, used) = get_raw_int(1, &code);
        assert_eq!(decoded, v);
        assert_eq!(used, 8);
    }
}

#[test]
fn int_encoding_is_little_endian() {
    let code = obj_from_int(0x0102030405060708);
    assert_eq!(&code[1..], &[0x08, 0x07, 0x06, 0x05, 0x04, 0x03, 0x02, 0x01]);
}

#[test]
fn float_round_trip() {
    for &f in &[0.0f64, -0.0, 1.5, -3.25, 1.0e300, f64::INFINITY, f64::NEG_INFINITY, f64::NAN] {
        let bits = f.to_bits();
        let code = obj_from_float(bits);
        assert_eq!(code.len(), 9);
        assert_eq!(code[0], TypeCode::Float.to_byte());
        let (decoded, used) = get_raw_float(1, &code);
        assert_eq!(decoded, bits);
        assert_eq!(used, 8);
    }
}

#[test]
fn boolean_round_trip() {
    for &b in &[true, false] {
        let code = obj_from_boolean(b);
        assert_eq!(code.len(), 2);
        assert_eq!(code[0], TypeCode::Bool.to_byte());
        let (decoded, used) = get_raw_boolean(1, &code);
        assert_eq!(decoded, b);
        assert_eq!(used, 1);
    }
}

#[test]
fn string_round_trip() {
    for s in ["", "a", "hello world", "h\u{e9}llo w\u{f6}rld", "\u{65e5}\u{672c}\u{8a9e}"] {
        let code = obj_from_string(s);
        assert_eq!(code[0], TypeCode::String.to_byte());
        let (decoded, used) = get_raw_string(1, &code);
        assert_eq!(decoded, s);
        assert_eq!(used, 8 + s.len());
    }
}

#[test]
fn address_round_trip() {
    for &a in &[0usize, 1, 77, usize::MAX] {
        let code = raw_from_usize(a);
        assert_eq!(code.len(), 8);
        let (decoded, used) = get_raw_usize(0, &code);
        assert_eq!(decoded, a);
        assert_eq!(used, 8);
    }
}

#[test]
fn const_decode_matches_encoding() {
    let code = obj_from_int(-5);
    let tag = TypeCode::from_byte(code[0]).unwrap();
    let (obj, used) = Object::from_byte_code_const(tag, &code, 1).unwrap();
    assert!(matches!(obj.value, Value::Int(-5)));
    assert_eq!(used, 8);

    let code = obj_from_string("ab");
    let tag = TypeCode::from_byte(code[0]).unwrap();
    let (obj, used) = Object::from_byte_code_const(tag, &code, 1).unwrap();
    match &obj.value {
        Value::String(s) => assert_eq!(s, "ab"),
        _ => panic!("expected a string"),
    }
    assert_eq!(used, 10);
}

#[test]
fn const_decode_refuses_truncated_payload() {
    let mut code = obj_from_int(7);
    code.truncate(5);
    assert!(Object::from_byte_code_const(TypeCode::Int, &code, 1).is_none());
}

#[test]
fn const_decode_refuses_invalid_utf8() {
    // tag, length 1, then a lone continuation byte
    let code: Vec<u8> = vec![
        TypeCode::String.to_byte(),
        1,
        0,
        0,
        0,
        0,
        0,
        0,
        0,
        0xBF,
    ];
    assert!(Object::from_byte_code_const(TypeCode::String, &code, 1).is_none());
}

#[test]
fn type_code_names() {
    assert_eq!(TypeCode::Int.name(), "Int");
    assert_eq!(TypeCode::Float.name(), "Float");
    assert_eq!(TypeCode::String.name(), "String");
    assert_eq!(TypeCode::Bool.name(), "Bool");
    assert_eq!(TypeCode::List.name(), "List");
    assert_eq!(TypeCode::Nil.name(), "None");
    assert_eq!(TypeCode::Function.name(), "Function");
    assert_eq!(TypeCode::Ref.name(), "Ref");
}
