//! Structural equality, canonical hashing, and loose comparison.

use log_viz::abstract_object::{AbstractObject, AbstractValue};

#[test]
fn insertion_order_does_not_matter() {
    let a = AbstractObject::new(String::from("Pair"))
        .with_prop("x", AbstractValue::Number(1))
        .with_prop("y", AbstractValue::Number(2));
    let b = AbstractObject::new(String::from("Pair"))
        .with_prop("y", AbstractValue::Number(2))
        .with_prop("x", AbstractValue::Number(1));
    assert_eq!(a, b);
    assert_eq!(a.canonical_hash(), b.canonical_hash());
}

#[test]
fn overwrite_on_duplicate_insert() {
    let mut a = AbstractObject::new(String::from("Rec"));
    a.insert_prop("k", AbstractValue::Number(1));
    a.insert_prop("k", AbstractValue::Number(2));
    assert_eq!(a.props().len(), 1);
    assert_eq!(a.props().get("k").unwrap(), &AbstractValue::Number(2));
}

#[test]
fn collection_hash_is_order_sensitive() {
    let fwd = AbstractValue::Collection(vec![AbstractValue::Number(1), AbstractValue::Number(2)]);
    let bwd = AbstractValue::Collection(vec![AbstractValue::Number(2), AbstractValue::Number(1)]);
    assert_ne!(fwd, bwd);
    assert_ne!(fwd.canonical_hash(), bwd.canonical_hash());
}

#[test]
fn unequal_values_compare_unequal() {
    let a = AbstractObject::new(String::from("A")).with_prop("x", AbstractValue::Number(1));
    let b = AbstractObject::new(String::from("A")).with_prop("x", AbstractValue::Number(2));
    let c = AbstractObject::new(String::from("A")).with_prop("y", AbstractValue::Number(1));
    assert_ne!(a, b);
    assert_ne!(a, c);
}

#[test]
fn loose_equality_by_kind() {
    assert_eq!(AbstractValue::Number(7).try_eq_raw_str("7"), Some(true));
    assert_eq!(AbstractValue::Number(7).try_eq_raw_str("8"), Some(false));
    // a number against text that is no integer literal is a mismatch
    assert_eq!(AbstractValue::Number(7).try_eq_raw_str("abc"), None);
    assert_eq!(AbstractValue::Symbol(String::from("abc")).try_eq_raw_str("abc"), Some(true));
    assert_eq!(AbstractValue::Symbol(String::from("abc")).try_eq_raw_str("abd"), Some(false));
    let obj = AbstractObject::new(String::from("A"));
    assert_eq!(AbstractValue::Object(obj).try_eq_raw_str("A"), None);
    assert_eq!(AbstractValue::Collection(vec![]).try_eq_raw_str("x"), None);
}

#[test]
fn parses_in_either_order_agree() {
    let (_, a) = log_viz::abstract_object::parser::parse_abstract_object("A(x=1, y=2)")
        .expect("parses");
    let (_, b) = log_viz::abstract_object::parser::parse_abstract_object("A(y=2, x=1)")
        .expect("parses");
    assert_eq!(a, b);
    assert_eq!(a.canonical_hash(), b.canonical_hash());
    let (_, c) = log_viz::abstract_object::parser::parse_abstract_object("A(x=1, y=3)")
        .expect("parses");
    assert_ne!(a, c);
}

#[test]
fn renders_read_back() {
    let (_, obj) =
        log_viz::abstract_object::parser::parse_abstract_object("A(b=1, c=x)").expect("parses");
    assert_eq!(obj.render(), "A(b=1, c=x, )");
    let pp = log_viz::abstract_object::pretty_print::AbstractObjectPrettyPrinter::new(&obj);
    assert_eq!(pp.render(), "A(\n  b = 1\n  c = x\n)");
}

#[test]
fn nested_pretty_print() {
    let (_, obj) = log_viz::abstract_object::parser::parse_abstract_object("A(b=B(c=1))")
        .expect("parses");
    let pp = log_viz::abstract_object::pretty_print::AbstractObjectPrettyPrinter::new(&obj);
    assert_eq!(pp.render(), "A(\n  b = B(\n    c = 1\n  )\n)");
    assert_eq!(pp.compute_base_indent_str(), "");
    assert_eq!(pp.compute_prop_indent_str(), "  ");
    let deeper = log_viz::abstract_object::pretty_print::AbstractObjectPrettyPrinter::new(&obj)
        .with_indent(1)
        .with_should_indent_start(true);
    assert_eq!(deeper.render(), "  A(\n    b = B(\n      c = 1\n    )\n  )");
}

#[test]
fn negative_numbers_render_with_sign() {
    let v = log_viz::abstract_object::AbstractValue::Number(-42);
    assert_eq!(v.render(), "-42");
    let z = log_viz::abstract_object::AbstractValue::Number(0);
    assert_eq!(z.render(), "0");
    let m = log_viz::abstract_object::AbstractValue::Number(i64::MIN);
    assert_eq!(m.render(), "-9223372036854775808");
}
