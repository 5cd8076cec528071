use configuration_schema::data::Value;
use configuration_schema::scalar::{
    is_float_literal, parse_bool, parse_i64, plain_value, scalar_value, tagged_value, Resolved,
};
use yaml_rust::scanner::{TScalarStyle, TokenType};

const SAMPLES: &[&str] = &[
    "", "0", "1", "-1", "+1", "007", "-0", "+", "-", "--1", "+-1", "1 ", " 1", "1_000", "12a",
    "9223372036854775807", "9223372036854775808", "-9223372036854775808",
    "-9223372036854775809", "99999999999999999999999999", "-99999999999999999999999999",
    "1.", ".5", ".", "1.5", "1.5.2", "1e5", "1E5", "1e", "1e+", "1e+5", "1e-5", "e5", "1.e5",
    ".e5", ".5e5", "-.5", "+.5", "-.", "1e5x", "1e5.0", "inf", "Inf", "INF", "+inf", "-inf",
    "infinity", "INFINITY", "-Infinity", "infinit", "infinityy", "nan", "NaN", "-nan", "+NAN",
    "na", "nann", ".inf", ".nan", "0x10", "1f", "true", "false", "True", "TRUE", "tru",
    "truee", "falsee", "yes", "no", "١٢", "1\u{0661}", "é", "İnf", "1\n", "\t1",
    "1.7976931348623157e309", "4.9e-400", "000.000e000",
];

#[test]
fn float_literals_are_what_std_parses() {
    for s in SAMPLES {
        assert_eq!(is_float_literal(s), s.parse::<f64>().is_ok(), "{:?}", s);
    }
}

#[test]
fn int_literals_are_what_std_parses() {
    for s in SAMPLES {
        assert_eq!(parse_i64(s), s.parse::<i64>().ok(), "{:?}", s);
    }
}

#[test]
fn bool_literals_are_what_std_parses() {
    for s in SAMPLES {
        assert_eq!(parse_bool(s), s.parse::<bool>().ok(), "{:?}", s);
    }
}

#[test]
fn exact_literal_values() {
    assert_eq!(parse_i64("42"), Some(42));
    assert_eq!(parse_i64("-42"), Some(-42));
    assert_eq!(parse_i64("+0012"), Some(12));
    assert_eq!(parse_i64("9223372036854775807"), Some(i64::MAX));
    assert_eq!(parse_i64("-9223372036854775808"), Some(i64::MIN));
    assert_eq!(parse_i64("9223372036854775808"), None);
    assert_eq!(parse_bool("true"), Some(true));
    assert_eq!(parse_bool("false"), Some(false));
    assert_eq!(parse_bool("1"), None);
    assert!(is_float_literal("2.5"));
    assert!(!is_float_literal("2.5f"));
}

fn text_of(r: Result<Value, configuration_schema::error::ContextualError>) -> String {
    match r {
        Ok(v) => format!("{:?}", v),
        Err(e) => format!("error: {}", e.message()),
    }
}

#[test]
fn tagged_values_go_by_the_suffix() {
    assert_eq!(text_of(tagged_value("true".into(), "bool")), "Boolean(true)");
    assert_eq!(text_of(tagged_value("x".into(), "bool")), "error: invalid boolean");
    assert_eq!(text_of(tagged_value("42".into(), "int")), "Integer(42)");
    assert_eq!(text_of(tagged_value("abc".into(), "int")), "error: invalid integer");
    assert_eq!(text_of(tagged_value("2.5".into(), "float")), "Float(\"2.5\")");
    assert_eq!(text_of(tagged_value("x".into(), "float")), "error: invalid float");
    assert_eq!(text_of(tagged_value("x".into(), "null")), "error: null not allowed");
    assert_eq!(text_of(tagged_value("12".into(), "str")), "String(\"12\")");
}

#[test]
fn plain_values_go_by_the_resolution() {
    assert_eq!(text_of(plain_value(Resolved::Real("1.5".into()))), "Float(\"1.5\")");
    assert_eq!(text_of(plain_value(Resolved::Integer(3))), "Integer(3)");
    assert_eq!(text_of(plain_value(Resolved::Text("a".into()))), "String(\"a\")");
    assert_eq!(text_of(plain_value(Resolved::Boolean(false))), "Boolean(false)");
    assert_eq!(text_of(plain_value(Resolved::Null)), "error: null not allowed");
}

#[test]
fn scalar_values_go_by_style_then_tag_then_text() {
    let tag = |h: &str, s: &str| Some(TokenType::Tag(h.into(), s.into()));
    assert_eq!(text_of(scalar_value("12".into(), TScalarStyle::DoubleQuoted, None)), "String(\"12\")");
    assert_eq!(
        text_of(scalar_value("12".into(), TScalarStyle::SingleQuoted, tag("!!", "int"))),
        "String(\"12\")"
    );
    assert_eq!(text_of(scalar_value("12".into(), TScalarStyle::Literal, None)), "String(\"12\")");
    assert_eq!(text_of(scalar_value("12".into(), TScalarStyle::Plain, None)), "Integer(12)");
    assert_eq!(text_of(scalar_value("0o17".into(), TScalarStyle::Plain, None)), "Integer(15)");
    assert_eq!(text_of(scalar_value("+12".into(), TScalarStyle::Plain, None)), "Integer(12)");
    assert_eq!(text_of(scalar_value("1.25".into(), TScalarStyle::Plain, None)), "Float(\"1.25\")");
    assert_eq!(text_of(scalar_value(".inf".into(), TScalarStyle::Plain, None)), "Float(\".inf\")");
    assert_eq!(text_of(scalar_value("true".into(), TScalarStyle::Plain, None)), "Boolean(true)");
    assert_eq!(text_of(scalar_value("x y".into(), TScalarStyle::Plain, None)), "String(\"x y\")");
    assert_eq!(text_of(scalar_value("~".into(), TScalarStyle::Plain, None)), "error: null not allowed");
    assert_eq!(
        text_of(scalar_value("12".into(), TScalarStyle::Plain, tag("!!", "float"))),
        "Float(\"12\")"
    );
    assert_eq!(text_of(scalar_value("12".into(), TScalarStyle::Plain, tag("!", "int"))), "String(\"12\")");
    assert_eq!(
        text_of(scalar_value("~".into(), TScalarStyle::Plain, Some(TokenType::Key))),
        "error: null not allowed"
    );
}
