use sixtyfps_interpreter::{NativeValue, Number, Struct, Value};

fn num(x: f64) -> Value {
    Value::Number(Number::from_bits(x.to_bits()))
}

fn text(s: &str) -> Value {
    Value::String(s.to_string())
}

#[test]
fn default_is_void() {
    assert!(Value::default() == Value::Void);
}

#[test]
fn zero_and_false_are_unequal() {
    assert!(num(0.0) != Value::Bool(false));
    assert!(Value::Void != Value::Bool(false));
    assert!(text("1") != num(1.0));
    assert!(Value::EnumerationValue("A".to_string(), "b".to_string()) != text("b"));
}

#[test]
fn numbers_compare_as_floats() {
    assert!(num(1.5) == num(1.5));
    assert!(num(0.0) == num(-0.0));
    assert!(num(f64::NAN) != num(f64::NAN));
    assert!(num(1.0) != num(2.0));
}

#[test]
fn arrays_compare_elementwise() {
    let a = Value::Array(vec![num(1.0), text("x")]);
    let b = Value::Array(vec![num(1.0), text("x")]);
    let c = Value::Array(vec![num(1.0), text("y")]);
    let d = Value::Array(vec![num(1.0)]);
    assert!(a == b);
    assert!(a != c);
    assert!(a != d);
}

#[test]
fn models_compare_by_identity() {
    assert!(Value::Model(3) == Value::Model(3));
    assert!(Value::Model(3) != Value::Model(4));
}

#[test]
fn struct_set_and_get() {
    let mut s = Struct::new();
    assert!(s.get_property("foo").is_none());
    s.set_property("foo".to_string(), num(45.0));
    s.set_property("bar".to_string(), Value::Bool(true));
    assert!(s.get_property("foo").unwrap() == num(45.0));
    assert!(s.get_property("bar").unwrap() == Value::Bool(true));
    s.set_property("foo".to_string(), text("again"));
    assert!(s.get_property("foo").unwrap() == text("again"));
    assert_eq!(s.iter().len(), 2);
}

#[test]
fn struct_lookup_is_case_sensitive() {
    let mut s = Struct::new();
    s.set_property("Foo".to_string(), num(1.0));
    assert!(s.get_property("foo").is_none());
}

#[test]
fn struct_from_pairs_later_wins() {
    let s = Struct::from_pairs(vec![
        ("foo".to_string(), num(45.0)),
        ("bar".to_string(), Value::Bool(true)),
        ("foo".to_string(), num(7.0)),
    ]);
    assert!(s.get_property("foo").unwrap() == num(7.0));
    assert!(s.get_property("bar").unwrap() == Value::Bool(true));
    let fields = s.iter();
    assert_eq!(fields.len(), 2);
    for (name, value) in fields {
        assert!(s.get_property(&name).unwrap() == value);
    }
}

#[test]
fn structs_compare_as_maps() {
    let a = Struct::from_pairs(vec![("x".to_string(), num(1.0)), ("y".to_string(), num(2.0))]);
    let b = Struct::from_pairs(vec![("y".to_string(), num(2.0)), ("x".to_string(), num(1.0))]);
    let c = Struct::from_pairs(vec![("x".to_string(), num(1.0))]);
    assert!(Value::Struct(a.clone()) == Value::Struct(b));
    assert!(Value::Struct(a) != Value::Struct(c));
}

#[test]
fn clone_is_equal() {
    let v = Value::Array(vec![
        Value::Struct(Struct::from_pairs(vec![("k".to_string(), text("v"))])),
        num(2.0),
    ]);
    assert!(v.clone() == v);
}

#[test]
fn number_bits_kept() {
    let n = Number::from_bits(1.25f64.to_bits());
    assert_eq!(f64::from_bits(n.to_bits()), 1.25);
    assert!(Number::from_bits(f64::NAN.to_bits()).is_nan());
    assert!(!n.is_nan());
}

#[test]
fn primitive_round_trips() {
    assert_eq!(bool::from_value(true.into_value()).ok(), Some(true));
    assert_eq!(bool::from_value(false.into_value()).ok(), Some(false));
    let n = Number::from_bits(100.0f64.to_bits());
    assert_eq!(Number::from_value(n.into_value()).ok().unwrap().to_bits(), 100.0f64.to_bits());
    assert_eq!(String::from_value("hi".to_string().into_value()).ok(), Some("hi".to_string()));
    let arr = vec![num(1.0), Value::Bool(true)];
    let back = Vec::<Value>::from_value(arr.clone().into_value()).ok().unwrap();
    assert!(Value::Array(back) == Value::Array(arr));
    let s = Struct::from_pairs(vec![("a".to_string(), num(3.0))]);
    let back = Struct::from_value(s.clone().into_value()).ok().unwrap();
    assert!(Value::Struct(back) == Value::Struct(s));
    assert!(<()>::from_value(num(1.0)).is_ok());
    assert!(().into_value() == Value::Void);
}

#[test]
fn mismatched_conversion_gives_value_back() {
    let v = text("not a number");
    match Number::from_value(v) {
        Ok(_) => panic!("a text is no number"),
        Err(back) => assert!(back == text("not a number")),
    }
    match bool::from_value(num(0.0)) {
        Ok(_) => panic!("a number is no boolean"),
        Err(back) => assert!(back == num(0.0)),
    }
    assert!(String::from_value(Value::Void).is_err());
    assert!(Struct::from_value(Value::Array(vec![])).is_err());
    assert!(Vec::<Value>::from_value(Value::Bool(true)).is_err());
}

#[test]
fn structs_have_equality() {
    let a = Struct::from_pairs(vec![("x".to_string(), num(1.0))]);
    let b = Struct::from_pairs(vec![("x".to_string(), num(1.0))]);
    let c = Struct::from_pairs(vec![("x".to_string(), num(2.0))]);
    assert!(a == b);
    assert!(a != c);
    assert!(Struct::default() == Struct::new());
    assert_eq!(a.iter().len(), 1);
}
