//! The declarative value model and its conversion boundary.

use picasound::options::{from_yaml, from_yaml_value, Num, Options, Value, Yaml};
use picasound::util::Error;

#[test]
fn null_is_rejected() {
    let r = from_yaml_value(&Yaml::Null);
    assert!(matches!(r, Err(Error::InvalidOptions)));
}

#[test]
fn tagged_is_rejected() {
    let r = from_yaml_value(&Yaml::Tagged(Box::new(Yaml::Bool(true))));
    assert!(matches!(r, Err(Error::InvalidOptions)));
}

#[test]
fn nested_null_is_rejected() {
    let r = from_yaml_value(&Yaml::Sequence(vec![Yaml::Bool(true), Yaml::Null]));
    assert!(matches!(r, Err(Error::InvalidOptions)));
}

#[test]
fn mapping_key_must_be_text() {
    let pairs = vec![(Yaml::Bool(true), Yaml::Bool(false))];
    let r = from_yaml(&pairs);
    assert!(matches!(r, Err(Error::InvalidOptions)));
}

#[test]
fn scalars_convert() {
    assert!(matches!(from_yaml_value(&Yaml::Bool(true)), Ok(Value::Bool(true))));
    let n = Num::from_raw(false, 65536);
    match from_yaml_value(&Yaml::Number(n)) {
        Ok(Value::Number(m)) => assert_eq!(m, n),
        _ => panic!("number did not convert"),
    }
    match from_yaml_value(&Yaml::Text(String::from("hi"))) {
        Ok(Value::Text(t)) => assert_eq!(t, "hi"),
        _ => panic!("text did not convert"),
    }
}

#[test]
fn options_lookup_prefers_latest() {
    let pairs = vec![
        (Yaml::Text(String::from("mode")), Yaml::Text(String::from("sum"))),
        (Yaml::Text(String::from("gain")), Yaml::Number(Num::from_raw(false, 3 * 65536))),
        (Yaml::Text(String::from("mode")), Yaml::Text(String::from("product"))),
    ];
    let opts: Options = from_yaml(&pairs).unwrap();
    assert!(opts.get("missing").is_none());
    // A duplicated key behaves like a map rebuilt by insertion: the later
    // declaration wins.
    match opts.get("mode") {
        Some(Value::Text(t)) => assert_eq!(t, "product"),
        _ => panic!("mode missing"),
    }
    assert!(opts.get("gain").is_some());
}

#[test]
fn as_i32_needs_whole_number() {
    let whole = Value::Number(Num::from_raw(false, 3 * 65536));
    assert_eq!(whole.as_i32(), Some(3));
    let neg = Value::Number(Num::from_raw(true, 2 * 65536));
    assert_eq!(neg.as_i32(), Some(-2));
    let frac = Value::Number(Num::from_raw(false, 65536 + 100));
    assert_eq!(frac.as_i32(), None);
    assert_eq!(Value::Bool(true).as_i32(), None);
}

#[test]
fn scalars_act_as_single_element_slices() {
    let v = Value::Number(Num::from_raw(false, 1));
    let s = v.as_slice().unwrap();
    assert_eq!(s.len(), 1);
    let seq = Value::Sequence(vec![Value::Bool(true), Value::Bool(false)]);
    let s2 = seq.as_slice().unwrap();
    assert_eq!(s2.len(), 2);
    let map = Value::Mapping(vec![]);
    assert!(map.as_slice().is_none());
}
