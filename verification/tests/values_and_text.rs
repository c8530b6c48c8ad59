// Integer rendering and reading, and the operators on values.

use vanilla_parser::structures::NodeValue;
use vanilla_parser::text::{parse_i32, str_eq};
use vanilla_parser::values::int_arith_exec;
use vanilla_parser::TokenType;

fn no_floats(_op: TokenType, _l: NodeValue, _r: NodeValue) -> NodeValue {
    NodeValue::Float("nan".to_string())
}

#[test]
fn value_text_of_each_kind() {
    assert_eq!(NodeValue::Int(-42).to_string(), "-42");
    assert_eq!(NodeValue::Int(i32::MIN).to_string(), "-2147483648");
    assert_eq!(NodeValue::Int(0).to_string(), "0");
    assert_eq!(NodeValue::Float("3.5".to_string()).to_string(), "3.5");
    assert_eq!(NodeValue::Boolean(true).to_string(), "1");
    assert_eq!(NodeValue::Boolean(false).to_string(), "0");
}

#[test]
fn reading_integers() {
    assert_eq!(parse_i32("123"), Some(123));
    assert_eq!(parse_i32("-7"), Some(-7));
    assert_eq!(parse_i32("+7"), Some(7));
    assert_eq!(parse_i32("2147483647"), Some(i32::MAX));
    assert_eq!(parse_i32("-2147483648"), Some(i32::MIN));
    assert_eq!(parse_i32("2147483648"), None);
    assert_eq!(parse_i32(""), None);
    assert_eq!(parse_i32("-"), None);
    assert_eq!(parse_i32("1a"), None);
}

#[test]
fn comparing_strings() {
    assert!(str_eq("abc", "abc"));
    assert!(!str_eq("abc", "abd"));
    assert!(!str_eq("ab", "abc"));
    assert!(str_eq("", ""));
}

#[test]
fn integer_arithmetic_as_rust_computes_it() {
    assert_eq!(int_arith_exec(TokenType::SUM, 2, 3), Some(5));
    assert_eq!(int_arith_exec(TokenType::MIN, 2, 3), Some(-1));
    assert_eq!(int_arith_exec(TokenType::TIMES, -4, 3), Some(-12));
    assert_eq!(int_arith_exec(TokenType::DIV, -7, 2), Some(-3));
    assert_eq!(int_arith_exec(TokenType::MODULUS, -7, 2), Some(-1));
    assert_eq!(int_arith_exec(TokenType::POWER, 2, 10), Some(1024));
    assert_eq!(int_arith_exec(TokenType::POWER, -2, 31), Some(i32::MIN));
    assert_eq!(int_arith_exec(TokenType::POWER, 1, -1), Some(1));
    assert_eq!(int_arith_exec(TokenType::POWER, -1, -1), Some(-1));
    assert_eq!(int_arith_exec(TokenType::POWER, 2, 31), None);
    assert_eq!(int_arith_exec(TokenType::POWER, 2, -1), None);
    assert_eq!(int_arith_exec(TokenType::SUM, i32::MAX, 1), None);
    assert_eq!(int_arith_exec(TokenType::DIV, 1, 0), None);
    assert_eq!(int_arith_exec(TokenType::DIV, i32::MIN, -1), None);
    assert_eq!(int_arith_exec(TokenType::MODULUS, 5, 0), None);
    assert_eq!(int_arith_exec(TokenType::MODULUS, i32::MIN, -1), None);
}

#[test]
fn power_of_values() {
    match NodeValue::Int(3).pow(NodeValue::Int(4), &no_floats) {
        Some(Some(NodeValue::Int(81))) => {},
        other => panic!("unexpected {:?}", other),
    }
    assert!(matches!(NodeValue::Boolean(true).pow(NodeValue::Int(4), &no_floats), Some(None)));
    assert!(NodeValue::Int(10).pow(NodeValue::Int(10), &no_floats).is_none());
    match NodeValue::Float("2".to_string()).pow(NodeValue::Int(3), &|_op, _l, _r| NodeValue::Float("8".to_string())) {
        Some(Some(NodeValue::Float(s))) => assert_eq!(s, "8"),
        other => panic!("unexpected {:?}", other),
    }
}

#[test]
fn applying_operators_to_values() {
    assert!(matches!(NodeValue::Int(7).apply(TokenType::MODULUS, NodeValue::Int(4), &no_floats), Some(Some(NodeValue::Int(3)))));
    assert!(matches!(NodeValue::Int(7).apply(TokenType::SUM, NodeValue::Boolean(false), &no_floats), Some(None)));
    assert!(NodeValue::Int(7).apply(TokenType::DIV, NodeValue::Int(0), &no_floats).is_none());
}

fn float_eq(op: TokenType, l: NodeValue, r: NodeValue) -> NodeValue {
    let f = |v: &NodeValue| match v {
        NodeValue::Int(i) => *i as f32,
        NodeValue::Float(s) => s.parse::<f32>().unwrap(),
        NodeValue::Boolean(_) => f32::NAN,
    };
    match op {
        TokenType::EQ => NodeValue::Boolean(f(&l) == f(&r)),
        TokenType::LT => NodeValue::Boolean(f(&l) < f(&r)),
        _ => NodeValue::Boolean(false),
    }
}

#[test]
fn equality_of_values() {
    assert!(NodeValue::Int(1).equals(&NodeValue::Boolean(true), &float_eq));
    assert!(!NodeValue::Int(2).equals(&NodeValue::Boolean(true), &float_eq));
    assert!(NodeValue::Boolean(false).equals(&NodeValue::Int(0), &float_eq));
    assert!(NodeValue::Int(3).equals(&NodeValue::Int(3), &float_eq));
    assert!(NodeValue::Float("1".to_string()).equals(&NodeValue::Boolean(true), &float_eq));
    assert!(NodeValue::Float("2.5".to_string()).equals(&NodeValue::Float("2.5".to_string()), &float_eq));
    assert!(!NodeValue::Float("2.5".to_string()).equals(&NodeValue::Int(2), &float_eq));
}

#[test]
fn order_of_values() {
    assert!(NodeValue::Int(1).order(TokenType::LT, &NodeValue::Int(2), &float_eq));
    assert!(!NodeValue::Int(2).order(TokenType::LE, &NodeValue::Int(1), &float_eq));
    assert!(NodeValue::Int(2).order(TokenType::GE, &NodeValue::Int(2), &float_eq));
    assert!(!NodeValue::Boolean(true).order(TokenType::GT, &NodeValue::Int(0), &float_eq));
    assert!(NodeValue::Float("0.5".to_string()).order(TokenType::LT, &NodeValue::Int(1), &float_eq));
}

#[test]
fn equality_of_values_is_symmetric() {
    let values = [
        NodeValue::Int(1),
        NodeValue::Int(0),
        NodeValue::Int(7),
        NodeValue::Boolean(true),
        NodeValue::Boolean(false),
        NodeValue::Float("1".to_string()),
        NodeValue::Float("2.5".to_string()),
    ];
    for a in values.iter() {
        for b in values.iter() {
            assert_eq!(a.equals(b, &float_eq), b.equals(a, &float_eq), "{:?} {:?}", a, b);
        }
    }
}
