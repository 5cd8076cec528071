use configuration_schema::data::{Position, Spanned, SpannedValue, Value};
use configuration_schema::error::{ContextualError, Error};
use configuration_schema::validator::{NoSchema, Validator};
use configuration_schema::yaml::{judged, load_from_str, load_stream};
use std::borrow::{Borrow, BorrowMut};
use std::cell::Cell;
use std::collections::hash_map::DefaultHasher;
use std::hash::{Hash, Hasher};

fn message_of(text: &str) -> String {
    match load_stream(text) {
        Ok(tree) => panic!("loaded: {:?}", tree),
        Err(e) => e.message().to_string(),
    }
}

fn loaded(text: &str) -> SpannedValue {
    match load_stream(text) {
        Ok(tree) => tree,
        Err(e) => panic!("refused: {}", e.message()),
    }
}

#[test]
fn mapping_keeps_order_and_kinds() {
    let tree = loaded("{\"a\": 1, \"b\": [true, 2.5, \"x\"]}");
    let map = match tree.as_ref() {
        Value::Mapping(map) => map,
        other => panic!("not a mapping: {:?}", other),
    };
    assert_eq!(map.len(), 2);
    let entries = map.entries();
    assert_eq!(entries[0].0.as_ref(), "a");
    assert_eq!(entries[1].0.as_ref(), "b");
    assert!(matches!(entries[0].1.as_ref(), Value::Integer(1)));
    let items = match entries[1].1.as_ref() {
        Value::Array(items) => items,
        other => panic!("not an array: {:?}", other),
    };
    assert_eq!(items.len(), 3);
    assert!(matches!(items[0].as_ref(), Value::Boolean(true)));
    match items[1].as_ref() {
        Value::Float(text) => {
            assert_eq!(text, "2.5");
            assert_eq!(text.parse::<f64>().unwrap(), 2.5);
        }
        other => panic!("not a float: {:?}", other),
    }
    match items[2].as_ref() {
        Value::String(text) => assert_eq!(text, "x"),
        other => panic!("not a string: {:?}", other),
    }
}

#[test]
fn block_mapping_keeps_source_order() {
    let tree = loaded("zeta: 1\nalpha: 2\nmid: 3\n");
    let map = match tree.into_inner() {
        Value::Mapping(map) => map,
        other => panic!("not a mapping: {:?}", other),
    };
    let keys: Vec<String> = map.entries().iter().map(|e| e.0.as_ref().clone()).collect();
    assert_eq!(keys, vec!["zeta", "alpha", "mid"]);
    assert!(matches!(map.get(&"alpha".to_string()).unwrap().as_ref(), Value::Integer(2)));
    assert!(map.get(&"beta".to_string()).is_none());
}

#[test]
fn quoted_scalar_stays_a_string() {
    match loaded("\"123\"").as_ref() {
        Value::String(text) => assert_eq!(text, "123"),
        other => panic!("not a string: {:?}", other),
    }
    match loaded("'true'").as_ref() {
        Value::String(text) => assert_eq!(text, "true"),
        other => panic!("not a string: {:?}", other),
    }
    match loaded("a: |\n  12\n").as_ref() {
        Value::Mapping(map) => match map.entries()[0].1.as_ref() {
            Value::String(text) => assert_eq!(text, "12\n"),
            other => panic!("not a string: {:?}", other),
        },
        other => panic!("not a mapping: {:?}", other),
    }
}

#[test]
fn plain_scalars_are_resolved() {
    assert!(matches!(loaded("123").as_ref(), Value::Integer(123)));
    assert!(matches!(loaded("-7").as_ref(), Value::Integer(-7)));
    assert!(matches!(loaded("0x10").as_ref(), Value::Integer(16)));
    assert!(matches!(loaded("true").as_ref(), Value::Boolean(true)));
    assert!(matches!(loaded("false").as_ref(), Value::Boolean(false)));
    match loaded("1.5e3").as_ref() {
        Value::Float(text) => assert_eq!(text.parse::<f64>().unwrap(), 1500.0),
        other => panic!("not a float: {:?}", other),
    }
    match loaded("hello").as_ref() {
        Value::String(text) => assert_eq!(text, "hello"),
        other => panic!("not a string: {:?}", other),
    }
    match loaded("yes").as_ref() {
        Value::String(text) => assert_eq!(text, "yes"),
        other => panic!("not a string: {:?}", other),
    }
}

#[test]
fn int_tag_coerces_or_fails() {
    assert!(matches!(loaded("!!int 42").as_ref(), Value::Integer(42)));
    assert!(matches!(loaded("!!int -42").as_ref(), Value::Integer(-42)));
    assert_eq!(message_of("!!int abc"), "invalid integer");
    assert_eq!(message_of("!!int 9223372036854775808"), "invalid integer");
    assert!(matches!(
        loaded("!!int -9223372036854775808").as_ref(),
        Value::Integer(i64::MIN)
    ));
}

#[test]
fn bool_and_float_tags_coerce_or_fail() {
    assert!(matches!(loaded("!!bool true").as_ref(), Value::Boolean(true)));
    assert!(matches!(loaded("!!bool false").as_ref(), Value::Boolean(false)));
    assert_eq!(message_of("!!bool yes"), "invalid boolean");
    assert_eq!(message_of("!!bool True"), "invalid boolean");
    match loaded("!!float 3").as_ref() {
        Value::Float(text) => assert_eq!(text.parse::<f64>().unwrap(), 3.0),
        other => panic!("not a float: {:?}", other),
    }
    assert_eq!(message_of("!!float abc"), "invalid float");
    assert_eq!(message_of("!!float .inf"), "invalid float");
}

#[test]
fn other_tags_leave_a_string() {
    match loaded("!!str 12").as_ref() {
        Value::String(text) => assert_eq!(text, "12"),
        other => panic!("not a string: {:?}", other),
    }
    match loaded("!local 12").as_ref() {
        Value::String(text) => assert_eq!(text, "12"),
        other => panic!("not a string: {:?}", other),
    }
}

#[test]
fn null_is_refused_everywhere() {
    assert_eq!(message_of("~"), "null not allowed");
    assert_eq!(message_of("null"), "null not allowed");
    assert_eq!(message_of("!!null x"), "null not allowed");
    assert_eq!(message_of("a: ~"), "null not allowed");
    assert_eq!(message_of("a:\n"), "null not allowed");
    assert_eq!(message_of("[1, [2, null]]"), "null not allowed");
    assert_eq!(message_of("a: {b: [~]}"), "null not allowed");
    assert_eq!(message_of("---\n"), "null not allowed");
}

#[test]
fn key_must_be_a_string() {
    assert_eq!(message_of("[1, 2]: x"), "unexpected non-string key");
    assert_eq!(message_of("{a: 1}: x"), "unexpected non-string key");
    assert_eq!(message_of("1: x"), "unexpected non-string key");
    assert_eq!(message_of("a: 1\ntrue: 2"), "unexpected non-string key");
    assert_eq!(message_of("? [1]\n: ~"), "null not allowed");
}

#[test]
fn one_document_only() {
    assert_eq!(message_of("a\n---\nb\n"), "expected end of file");
    assert_eq!(message_of("a: 1\n---\nb: 2\n"), "expected end of file");
    assert_eq!(message_of("--- a\n--- b\n"), "expected end of file");
    assert!(matches!(loaded("--- 1\n...\n").as_ref(), Value::Integer(1)));
}

#[test]
fn no_node_is_an_unexpected_type() {
    assert_eq!(message_of(""), "unexpected type");
    assert_eq!(message_of("- &a 1\n- *a\n"), "unexpected type");
}

#[test]
fn scan_errors_keep_their_words() {
    let text = "a: [1, 2";
    let mut parser = yaml_rust::parser::Parser::new(text.chars());
    let expected = loop {
        match parser.next() {
            Ok(_) => {}
            Err(e) => break e.to_string(),
        }
    };
    assert_eq!(message_of(text), expected);
    assert!(expected.contains(" at line "));
    let err = ContextualError::from(yaml_rust::scanner::ScanError::new(
        *parser.next().unwrap_err().marker(),
        "broken",
    ));
    assert!(err.message().starts_with("broken at line "));
}

#[test]
fn spans_are_the_places_of_the_first_events() {
    let tree = loaded("a: 1\nbb:\n  - x\n");
    assert_eq!(tree.start(), tree.end());
    assert_eq!(tree.span(), (tree.start(), tree.end()));
    let map = match tree.as_ref() {
        Value::Mapping(map) => map,
        other => panic!("not a mapping: {:?}", other),
    };
    let entries = map.entries();
    assert_eq!(entries[0].0.start(), Position { line: 1, column: 0 });
    assert_eq!(entries[0].1.start(), Position { line: 1, column: 3 });
    assert_eq!(entries[1].0.start(), Position { line: 2, column: 0 });
    assert_eq!(entries[1].0.end(), Position { line: 2, column: 0 });
    let items = match entries[1].1.as_ref() {
        Value::Array(items) => items,
        other => panic!("not an array: {:?}", other),
    };
    assert_eq!(items[0].start(), Position { line: 3, column: 4 });
    assert!(entries[0].0.start() < entries[1].0.start());
}

#[test]
fn a_key_that_comes_twice_keeps_its_first_span_and_last_node() {
    let tree = loaded("a: 1\nb: 2\na: 3\n");
    let map = match tree.as_ref() {
        Value::Mapping(map) => map,
        other => panic!("not a mapping: {:?}", other),
    };
    assert_eq!(map.len(), 2);
    let entries = map.entries();
    assert_eq!(entries[0].0.as_ref(), "b");
    assert_eq!(entries[1].0.as_ref(), "a");
    assert_eq!(entries[1].0.start(), Position { line: 1, column: 0 });
    assert!(matches!(entries[1].1.as_ref(), Value::Integer(3)));
    assert_eq!(entries[1].1.start(), Position { line: 3, column: 3 });
}

struct Counting {
    calls: Cell<usize>,
    accept: bool,
    seen_entries: Cell<usize>,
}

impl Validator for Counting {
    fn validate(&self, value: &SpannedValue) -> Result<(), ContextualError> {
        self.calls.set(self.calls.get() + 1);
        if let Value::Mapping(map) = value.as_ref() {
            self.seen_entries.set(map.len());
        }
        if self.accept {
            Ok(())
        } else {
            Err(ContextualError::new("rejected by schema"))
        }
    }
}

#[test]
fn a_rejecting_validator_is_asked_once_and_wins() {
    let v = Counting { calls: Cell::new(0), accept: false, seen_entries: Cell::new(0) };
    match load_from_str("a: 1\nb: [1, 2]\n", &v) {
        Err(Error::Contextual(e)) => assert_eq!(e.message(), "rejected by schema"),
        other => panic!("unexpected: {:?}", other),
    }
    assert_eq!(v.calls.get(), 1);
    assert_eq!(v.seen_entries.get(), 2);
}

#[test]
fn an_accepting_validator_is_asked_once() {
    let v = Counting { calls: Cell::new(0), accept: true, seen_entries: Cell::new(0) };
    let tree = load_from_str("a: 1\n", &v).unwrap();
    assert_eq!(v.calls.get(), 1);
    assert!(matches!(tree.as_ref(), Value::Mapping(_)));
}

#[test]
fn a_text_that_does_not_load_is_never_shown() {
    let v = Counting { calls: Cell::new(0), accept: true, seen_entries: Cell::new(0) };
    match load_from_str("a: ~\n", &v) {
        Err(Error::Contextual(e)) => assert_eq!(e.message(), "null not allowed"),
        other => panic!("unexpected: {:?}", other),
    }
    assert_eq!(v.calls.get(), 0);
}

#[test]
fn no_schema_accepts() {
    let tree = load_from_str("[1, 2]", &NoSchema::new()).unwrap();
    assert!(NoSchema::new().validate(&tree).is_ok());
    match tree.as_ref() {
        Value::Array(items) => assert_eq!(items.len(), 2),
        other => panic!("not an array: {:?}", other),
    }
}

#[test]
fn judged_follows_the_verdict() {
    let tree = loaded("1");
    assert!(matches!(judged(tree, Ok(())), Ok(_)));
    let tree = loaded("1");
    match judged(tree, Err(ContextualError::new("no"))) {
        Err(Error::Contextual(e)) => assert_eq!(e.message(), "no"),
        other => panic!("unexpected: {:?}", other),
    }
}

#[test]
fn errors_say_what_they_hold() {
    let e = Error::from(ContextualError::new("invalid boolean"));
    assert_eq!(e.message(), "invalid boolean");
    let io = Error::from(std::io::Error::new(std::io::ErrorKind::NotFound, "gone"));
    assert!(matches!(io, Error::Io(_)));
    assert_eq!(io.message(), "gone");
}

#[test]
fn spanned_keeps_its_parts() {
    let a = Position { line: 1, column: 2 };
    let b = Position { line: 1, column: 5 };
    let mut s = Spanned::new(7i64, a, b);
    assert_eq!(s.start(), a);
    assert_eq!(s.end(), b);
    assert_eq!(s.span(), (a, b));
    *s.as_mut() = 8;
    assert_eq!(*s.as_ref(), 8);
    assert_eq!(s.span(), (a, b));
    assert_eq!(s.into_inner(), 8);
}

#[test]
fn spanned_values_compare_and_hash_by_what_they_wrap() {
    let a = Position { line: 1, column: 2 };
    let b = Position { line: 9, column: 0 };
    let x = Spanned::new("k".to_string(), a, a);
    let y = Spanned::new("k".to_string(), b, b);
    let z = Spanned::new("j".to_string(), a, a);
    assert!(x == y);
    assert!(x != z);
    let hash = |s: &Spanned<String>| {
        let mut h = DefaultHasher::new();
        s.hash(&mut h);
        h.finish()
    };
    let plain = {
        let mut h = DefaultHasher::new();
        "k".to_string().hash(&mut h);
        h.finish()
    };
    assert_eq!(hash(&x), hash(&y));
    assert_eq!(hash(&x), plain);
}

#[test]
fn positions_are_ordered_by_line_then_column() {
    let p = |line, column| Position { line, column };
    assert!(p(1, 9) < p(2, 0));
    assert!(p(2, 0) < p(2, 1));
    assert!(!(p(2, 1) < p(2, 1)));
    assert!(p(3, 0) > p(2, 7));
    assert_eq!(p(2, 1).partial_cmp(&p(2, 1)), Some(std::cmp::Ordering::Equal));
    assert_eq!(p(2, 1).cmp(&p(2, 1)), std::cmp::Ordering::Equal);
    assert_eq!(p(1, 5).cmp(&p(2, 1)), p(1, 5).partial_cmp(&p(2, 1)).unwrap());
    assert_eq!(p(3, 5).cmp(&p(2, 9)), p(3, 5).partial_cmp(&p(2, 9)).unwrap());
}

#[test]
fn a_copy_is_the_same_tree() {
    let tree = loaded("a: [1, {b: x}]\nc: 2.5\n");
    let copy = tree.clone();
    assert_eq!(format!("{:?}", copy), format!("{:?}", tree));
    assert_eq!(copy.span(), tree.span());
}

#[test]
fn borrowing_reaches_the_inner_value() {
    let a = Position { line: 4, column: 1 };
    let b = Position { line: 4, column: 6 };
    let mut s = Spanned::new(7i64, a, b);
    {
        let r: &i64 = s.borrow();
        assert_eq!(*r, 7);
    }
    {
        let w: &mut i64 = s.borrow_mut();
        assert_eq!(*w, 7);
        *w = 9;
    }
    assert_eq!(s.span(), (a, b));
    assert_eq!(s.into_inner(), 9);
}
