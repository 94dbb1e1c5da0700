//! The object model's operators: numeric promotion, concatenation, zero
//! division, coercions and the equality the language defines.

use minilang::object::{Object, Value};
use minilang::runtime::error_codes::ErrorCode;

fn int_obj(v: i64) -> Object {
    Object::new(Value::Int(v))
}

fn float(f: f64) -> Object {
    Object::new(Value::Float(f.to_bits()))
}

fn string(s: &str) -> Object {
    Object::new(Value::String(s.to_string()))
}

fn boolean(b: bool) -> Object {
    Object::new(Value::Bool(b))
}

fn none() -> Object {
    Object::none()
}

fn as_int(o: &Object) -> i64 {
    match o.value {
        Value::Int(v) => v,
        _ => panic!("expected an Int"),
    }
}

fn as_float(o: &Object) -> f64 {
    match o.value {
        Value::Float(bits) => f64::from_bits(bits),
        _ => panic!("expected a Float"),
    }
}

fn as_bool(o: &Object) -> bool {
    match o.value {
        Value::Bool(b) => b,
        _ => panic!("expected a Bool"),
    }
}

#[test]
fn add_ints() {
    assert_eq!(as_int(&Object::add(&int_obj(1), &int_obj(2)).unwrap()), 3);
    assert_eq!(as_int(&Object::add(&int_obj(-5), &int_obj(2)).unwrap()), -3);
}

#[test]
fn int_arithmetic_wraps() {
    assert_eq!(as_int(&Object::add(&int_obj(i64::MAX), &int_obj(1)).unwrap()), i64::MIN);
    assert_eq!(as_int(&Object::sub(&int_obj(i64::MIN), &int_obj(1)).unwrap()), i64::MAX);
    assert_eq!(as_int(&Object::div(&int_obj(i64::MIN), &int_obj(-1)).unwrap()), i64::MIN);
    assert_eq!(as_int(&Object::rem(&int_obj(i64::MIN), &int_obj(-1)).unwrap()), 0);
}

#[test]
fn int_division_truncates() {
    assert_eq!(as_int(&Object::div(&int_obj(-7), &int_obj(2)).unwrap()), -3);
    assert_eq!(as_int(&Object::rem(&int_obj(-7), &int_obj(2)).unwrap()), -1);
    assert_eq!(as_int(&Object::div(&int_obj(7), &int_obj(-2)).unwrap()), -3);
    assert_eq!(as_int(&Object::rem(&int_obj(7), &int_obj(-2)).unwrap()), 1);
}

#[test]
fn float_arithmetic_matches_hardware() {
    let a = 0.1f64;
    let b = 0.2f64;
    assert_eq!(as_float(&Object::add(&float(a), &float(b)).unwrap()).to_bits(), (a + b).to_bits());
    assert_eq!(as_float(&Object::sub(&float(a), &float(b)).unwrap()).to_bits(), (a - b).to_bits());
    assert_eq!(as_float(&Object::mul(&float(a), &float(b)).unwrap()).to_bits(), (a * b).to_bits());
    assert_eq!(as_float(&Object::div(&float(a), &float(b)).unwrap()).to_bits(), (a / b).to_bits());
    assert_eq!(as_float(&Object::rem(&float(7.5), &float(2.0)).unwrap()).to_bits(), (7.5f64 % 2.0f64).to_bits());
}

#[test]
fn mixed_pairs_promote_the_int() {
    assert_eq!(as_float(&Object::add(&int_obj(1), &float(2.5)).unwrap()), 3.5);
    assert_eq!(as_float(&Object::add(&float(2.5), &int_obj(1)).unwrap()), 3.5);
    assert_eq!(as_float(&Object::mul(&int_obj(3), &float(0.5)).unwrap()), 1.5);
    assert_eq!(as_float(&Object::sub(&float(1.0), &int_obj(4)).unwrap()), -3.0);
    assert_eq!(as_float(&Object::div(&int_obj(1), &float(4.0)).unwrap()), 0.25);
    assert_eq!(as_float(&Object::rem(&float(7.5), &int_obj(2)).unwrap()), 1.5);
}

#[test]
fn add_strings() {
    let r = Object::add(&string("a"), &string("b")).unwrap();
    match &r.value {
        Value::String(s) => assert_eq!(s, "ab"),
        _ => panic!("expected a string"),
    }
    let r = Object::add(&string(""), &string("")).unwrap();
    match &r.value {
        Value::String(s) => assert_eq!(s, ""),
        _ => panic!("expected a string"),
    }
}

#[test]
fn add_lists() {
    let a = Object::new(Value::List(vec![int_obj(1), int_obj(2)]));
    let b = Object::new(Value::List(vec![int_obj(3)]));
    let r = Object::add(&a, &b).unwrap();
    match &r.value {
        Value::List(items) => {
            assert_eq!(items.len(), 3);
            assert_eq!(as_int(&items[0]), 1);
            assert_eq!(as_int(&items[1]), 2);
            assert_eq!(as_int(&items[2]), 3);
        },
        _ => panic!("expected a list"),
    }
}

#[test]
fn division_by_zero_fails_for_every_numeric_pair() {
    assert_eq!(Object::div(&int_obj(1), &int_obj(0)).unwrap_err().code, ErrorCode::ZeroDivision);
    assert_eq!(Object::div(&float(1.0), &float(0.0)).unwrap_err().code, ErrorCode::ZeroDivision);
    assert_eq!(Object::div(&float(1.0), &float(-0.0)).unwrap_err().code, ErrorCode::ZeroDivision);
    assert_eq!(Object::div(&float(1.0), &int_obj(0)).unwrap_err().code, ErrorCode::ZeroDivision);
    assert_eq!(Object::div(&int_obj(1), &float(0.0)).unwrap_err().code, ErrorCode::ZeroDivision);
    assert_eq!(Object::rem(&int_obj(1), &int_obj(0)).unwrap_err().code, ErrorCode::ZeroDivision);
    assert_eq!(Object::rem(&float(1.0), &float(0.0)).unwrap_err().code, ErrorCode::ZeroDivision);
    assert_eq!(Object::rem(&float(1.0), &int_obj(0)).unwrap_err().code, ErrorCode::ZeroDivision);
    assert_eq!(Object::rem(&int_obj(1), &float(-0.0)).unwrap_err().code, ErrorCode::ZeroDivision);
}

#[test]
fn incompatible_operands_are_type_errors() {
    assert_eq!(Object::add(&string("a"), &int_obj(1)).unwrap_err().code, ErrorCode::TypeError);
    assert_eq!(Object::sub(&string("a"), &string("b")).unwrap_err().code, ErrorCode::TypeError);
    assert_eq!(Object::greater(&string("a"), &string("b")).unwrap_err().code, ErrorCode::TypeError);
    assert_eq!(Object::div(&boolean(true), &int_obj(1)).unwrap_err().code, ErrorCode::TypeError);
}

#[test]
fn equality_follows_the_language() {
    assert!(Object::eq(&int_obj(2), &int_obj(2)));
    assert!(!Object::eq(&int_obj(2), &int_obj(3)));
    assert!(Object::eq(&int_obj(2), &float(2.0)));
    assert!(Object::eq(&float(2.0), &int_obj(2)));
    assert!(Object::eq(&float(0.0), &float(-0.0)));
    assert!(!Object::eq(&float(f64::NAN), &float(f64::NAN)));
    assert!(Object::eq(&string("x"), &string("x")));
    assert!(!Object::eq(&string("x"), &string("y")));
    assert!(Object::eq(&boolean(true), &boolean(true)));
    assert!(Object::eq(&none(), &none()));
    // any other pairing is simply unequal, not an error
    assert!(!Object::eq(&string("1"), &int_obj(1)));
    assert!(!Object::eq(&none(), &boolean(false)));
    assert!(Object::ne(&string("1"), &int_obj(1)));
}

#[test]
fn ordering_follows_the_language() {
    assert!(as_bool(&Object::less(&int_obj(1), &int_obj(2)).unwrap()));
    assert!(as_bool(&Object::greater(&float(2.5), &int_obj(2)).unwrap()));
    assert!(as_bool(&Object::less_eq(&int_obj(2), &float(2.0)).unwrap()));
    assert!(as_bool(&Object::greater_eq(&float(2.0), &float(2.0)).unwrap()));
    assert!(!as_bool(&Object::less(&float(f64::NAN), &float(1.0)).unwrap()));
    assert!(!as_bool(&Object::greater(&float(f64::NAN), &float(1.0)).unwrap()));
}

#[test]
fn boolean_coercion() {
    assert!(as_bool(&Object::not(&boolean(false)).unwrap()));
    assert!(as_bool(&Object::not(&int_obj(0)).unwrap()));
    assert!(!as_bool(&Object::not(&int_obj(7)).unwrap()));
    assert!(as_bool(&Object::not(&float(0.0)).unwrap()));
    assert!(!as_bool(&Object::not(&float(f64::NAN)).unwrap()));
    assert!(as_bool(&Object::not(&string("")).unwrap()));
    assert!(!as_bool(&Object::not(&string("x")).unwrap()));
    assert!(as_bool(&Object::not(&none()).unwrap()));
    let empty_list = Object::new(Value::List(vec![]));
    assert!(as_bool(&Object::not(&empty_list).unwrap()));
    let reference = Object::new_ref(0);
    assert_eq!(Object::not(&reference).unwrap_err().code, ErrorCode::TypeError);
}

#[test]
fn and_or_short_circuit_the_coercion() {
    let uncoercible = Object::new(Value::Function(0));
    // the right operand's coercion only matters when the left one decides
    assert!(!as_bool(&Object::and(&boolean(false), &uncoercible).unwrap()));
    assert!(as_bool(&Object::or(&boolean(true), &uncoercible).unwrap()));
    assert_eq!(Object::and(&boolean(true), &uncoercible).unwrap_err().code, ErrorCode::TypeError);
    assert_eq!(Object::or(&boolean(false), &uncoercible).unwrap_err().code, ErrorCode::TypeError);
    assert!(as_bool(&Object::and(&int_obj(1), &int_obj(2)).unwrap()));
    assert!(!as_bool(&Object::and(&int_obj(1), &int_obj(0)).unwrap()));
    assert!(as_bool(&Object::or(&int_obj(0), &string("x")).unwrap()));
}

#[test]
fn reference_counting() {
    let mut o = int_obj(1);
    assert!(o.is_dead());
    o.inc_ref_count();
    assert!(!o.is_dead());
    o.dec_ref_count();
    assert!(o.is_dead());
}
