use neon_serde::de::{
    deserialize_bool, deserialize_bytes, deserialize_char, deserialize_enum, deserialize_f64,
    deserialize_i64, deserialize_option, deserialize_string, deserialize_u64, deserialize_unit,
    object_properties, select_variant, struct_fields, unit_variant, value_or_undefined,
    variant_payload, ArrayAccess,
};
use neon_serde::errors::Error;
use neon_serde::number::{
    number_from_i64, number_from_u64, number_of_magnitude, number_to_i64, number_to_u64,
    whole_number,
};
use neon_serde::ser::{
    map_key, serialize_bool, serialize_bytes, serialize_char, serialize_f64, serialize_i64, serialize_str,
    serialize_u64, serialize_unit, utf16_length, serialize_unit_variant, serialize_variant, ArraySerializer,
    ObjectSerializer,
};
use neon_serde::value::{find_property, set_property, HostLimits, JsValue, Property};

fn num(x: f64) -> JsValue {
    JsValue::Number(x.to_bits())
}

fn text(s: &str) -> JsValue {
    JsValue::String(s.to_string())
}

fn limits(n: usize) -> HostLimits {
    HostLimits { max_string_len: n }
}

#[test]
fn test_it_compiles() {
    let v = serialize_unit();
    assert!(matches!(v, JsValue::Null));
    assert!(deserialize_unit(&v).is_ok());
}

#[test]
fn test_it_compiles_2() {
    let v = value_or_undefined(None);
    assert!(matches!(v, JsValue::Undefined));
    assert!(deserialize_unit(&v).is_ok());
    let v = serialize_unit();
    assert!(matches!(v, JsValue::Null));
}

#[test]
fn record_round_trip() {
    let lim = HostLimits::node();
    let mut obj = ObjectSerializer::new();
    obj.serialize_field("a".to_string(), serialize_u64(1).unwrap());
    let mut arr = ArraySerializer::new();
    for x in [2.0f64, 3.0, 4.0] {
        arr.serialize_element(serialize_f64(x.to_bits()));
    }
    obj.serialize_field("b".to_string(), arr.end());
    obj.serialize_field("c".to_string(), serialize_str(&lim, "a string").unwrap());
    let js = obj.end();

    let props = object_properties(&js).unwrap();
    assert_eq!(props.len(), 3);
    assert_eq!(props[0].key, "a");
    assert_eq!(props[1].key, "b");
    assert_eq!(props[2].key, "c");
    match &props[0].value {
        JsValue::Number(b) => assert_eq!(f64::from_bits(*b), 1.0),
        other => panic!("unexpected {:?}", other),
    }

    let fields = vec!["a".to_string(), "b".to_string(), "c".to_string()];
    let at = struct_fields(props, &fields);
    assert_eq!(at, vec![Some(0), Some(1), Some(2)]);
    let a = deserialize_u64(&props[at[0].unwrap()].value, u32::MAX as u64).unwrap();
    assert_eq!(a, 1);
    let mut walk = ArrayAccess::new(&props[at[1].unwrap()].value).unwrap();
    let mut b: Vec<f64> = Vec::new();
    while let Some(x) = walk.next_element().unwrap() {
        b.push(f64::from_bits(deserialize_f64(x).unwrap()));
    }
    assert_eq!(b, vec![2.0, 3.0, 4.0]);
    let c = deserialize_string(&props[at[2].unwrap()].value).unwrap();
    assert_eq!(c, "a string");
}

#[test]
fn unknown_fields_are_ignored_and_missing_fields_found_absent() {
    let props = vec![
        Property { key: "extra".to_string(), value: JsValue::Boolean(true) },
        Property { key: "a".to_string(), value: num(7.0) },
    ];
    let fields = vec!["a".to_string(), "missing".to_string()];
    assert_eq!(struct_fields(&props, &fields), vec![Some(1), None]);
}

#[test]
fn string_length_boundary() {
    let lim = limits(5);
    match serialize_str(&lim, "abcde").unwrap() {
        JsValue::String(s) => assert_eq!(s, "abcde"),
        other => panic!("unexpected {:?}", other),
    }
    assert!(matches!(serialize_str(&lim, "abcdef"), Err(Error::StringTooLong { len: 6 })));
    assert!(matches!(serialize_str(&lim, "ééééé"), Ok(JsValue::String(_))));
    assert!(matches!(serialize_str(&limits(0), ""), Ok(JsValue::String(_))));
    assert!(matches!(serialize_str(&limits(1), "\u{1F600}"), Err(Error::StringTooLong { len: 2 })));
    assert!(matches!(serialize_str(&limits(2), "\u{1F600}"), Ok(JsValue::String(_))));
    assert_eq!(utf16_length("a\u{1F600}é"), 4);
    assert!(matches!(serialize_str(&limits(0), "x"), Err(Error::StringTooLong { len: 1 })));
    assert!(matches!(
        serialize_unit_variant(&limits(2), "Red"),
        Err(Error::StringTooLong { len: 3 })
    ));
}

#[test]
fn char_boundary() {
    assert!(matches!(deserialize_char(&text("")), Err(Error::EmptyString)));
    assert!(matches!(deserialize_char(&text("ab")), Err(Error::StringTooLongForChar { len: 2 })));
    assert_eq!(deserialize_char(&text("a")).unwrap(), 'a');
    assert_eq!(deserialize_char(&text("é")).unwrap(), 'é');
    assert!(matches!(
        deserialize_char(&num(1.0)),
        Err(Error::UnableToCoerce { to_type: "char" })
    ));
    match serialize_char('z') {
        JsValue::String(s) => assert_eq!(s, "z"),
        other => panic!("unexpected {:?}", other),
    }
    assert_eq!(deserialize_char(&serialize_char('q')).unwrap(), 'q');
}

#[test]
fn boolean_coercion_matrix() {
    assert_eq!(deserialize_bool(&JsValue::Boolean(true)).unwrap(), true);
    assert_eq!(deserialize_bool(&JsValue::Boolean(false)).unwrap(), false);
    assert_eq!(deserialize_bool(&JsValue::Null).unwrap(), false);
    assert_eq!(deserialize_bool(&JsValue::Undefined).unwrap(), false);
    assert_eq!(deserialize_bool(&num(0.0)).unwrap(), false);
    assert_eq!(deserialize_bool(&num(-0.0)).unwrap(), false);
    assert_eq!(deserialize_bool(&num(1.0)).unwrap(), true);
    assert_eq!(deserialize_bool(&num(-2.5)).unwrap(), true);
    assert!(matches!(
        deserialize_bool(&text("x")),
        Err(Error::UnableToCoerce { to_type: "bool" })
    ));
    assert!(matches!(
        deserialize_bool(&JsValue::Array(Vec::new())),
        Err(Error::UnableToCoerce { to_type: "bool" })
    ));
    assert!(matches!(serialize_bool(true), JsValue::Boolean(true)));
}

#[test]
fn unit_expects_null() {
    assert!(deserialize_unit(&JsValue::Null).is_ok());
    assert!(deserialize_unit(&JsValue::Undefined).is_ok());
    assert!(matches!(deserialize_unit(&num(0.0)), Err(Error::ExpectingNull)));
}

#[test]
fn enum_shape_dispatch() {
    let lim = HostLimits::node();
    let variants = vec!["Red".to_string(), "Green".to_string()];
    let red = serialize_unit_variant(&lim, "Red").unwrap();
    match &red {
        JsValue::String(s) => assert_eq!(s, "Red"),
        other => panic!("unexpected {:?}", other),
    }
    let (name, payload) = deserialize_enum(&red).unwrap();
    assert_eq!(select_variant(&variants, name).unwrap(), 0);
    assert!(payload.is_none());
    assert!(unit_variant(payload).is_ok());

    let circle = serialize_variant("Circle", serialize_f64(1.5f64.to_bits()));
    match &circle {
        JsValue::Object(props) => {
            assert_eq!(props.len(), 1);
            assert_eq!(props[0].key, "Circle");
        }
        other => panic!("unexpected {:?}", other),
    }
    let (name, payload) = deserialize_enum(&circle).unwrap();
    assert_eq!(name, "Circle");
    let inner = variant_payload(payload).unwrap();
    assert_eq!(f64::from_bits(deserialize_f64(inner).unwrap()), 1.5);

    let two = JsValue::Object(vec![
        Property { key: "Circle".to_string(), value: num(1.5) },
        Property { key: "Extra".to_string(), value: JsValue::Boolean(true) },
    ]);
    match deserialize_enum(&two) {
        Err(Error::InvalidKeyType { key }) => assert_eq!(key, ""),
        other => panic!("unexpected {:?}", other),
    }
    assert!(matches!(
        deserialize_enum(&JsValue::Object(Vec::new())),
        Err(Error::InvalidKeyType { .. })
    ));
    assert!(matches!(deserialize_enum(&num(3.0)), Err(Error::InvalidKeyType { .. })));
    match select_variant(&variants, &"Blue".to_string()) {
        Err(Error::InvalidKeyType { key }) => assert_eq!(key, "Blue"),
        other => panic!("unexpected {:?}", other),
    }
    assert!(matches!(variant_payload(None), Err(Error::Serde { .. })));
    assert!(matches!(unit_variant(Some(&num(1.0))), Err(Error::ExpectingNull)));
}

#[test]
fn option_handling() {
    let none = serialize_unit();
    assert!(matches!(none, JsValue::Null));
    assert!(!deserialize_option(&none));
    let some = serialize_i64(5).unwrap();
    match some {
        JsValue::Number(b) => assert_eq!(f64::from_bits(b), 5.0),
        ref other => panic!("unexpected {:?}", other),
    }
    assert!(deserialize_option(&some));
    assert_eq!(deserialize_i64(&some, i32::MIN as i64, i32::MAX as i64).unwrap(), 5);
    assert!(!deserialize_option(&JsValue::Undefined));
    assert!(!deserialize_option(&value_or_undefined(None)));
    assert!(deserialize_option(&value_or_undefined(Some(num(0.0)))));
}

#[test]
fn array_bounds() {
    let js = JsValue::Array(vec![num(1.0), num(2.0), num(3.0)]);
    let mut walk = ArrayAccess::new(&js).unwrap();
    assert_eq!(walk.remaining(), 3);
    assert!(walk.get(2).is_ok());
    assert!(matches!(
        walk.get(3),
        Err(Error::ArrayIndexOutOfBounds { index: 3, length: 3 })
    ));
    let mut n = 0;
    while let Some(_) = walk.next_element().unwrap() {
        n += 1;
    }
    assert_eq!(n, 3);
    assert!(walk.next_element().unwrap().is_none());
    assert!(matches!(ArrayAccess::new(&num(1.0)), Err(Error::Serde { .. })));
}

#[test]
fn tuples_need_their_arity() {
    let js = JsValue::Array(vec![num(1.0), text("x")]);
    assert!(ArrayAccess::new_tuple(&js, 2).is_ok());
    assert!(matches!(ArrayAccess::new_tuple(&js, 3), Err(Error::Serde { .. })));
    let mut arr = ArraySerializer::new();
    arr.serialize_element(JsValue::Null);
    assert!(matches!(arr.end_tuple(2), Err(Error::Serde { .. })));
}

#[test]
fn integer_numbers() {
    let limit: i64 = 1 << 53;
    let b = number_from_i64(limit).unwrap();
    assert_eq!(f64::from_bits(b), 9007199254740992.0);
    assert!(matches!(number_from_i64(limit + 1), Err(Error::CastError)));
    assert!(matches!(number_from_i64(-limit - 1), Err(Error::CastError)));
    assert_eq!(f64::from_bits(number_from_i64(-limit).unwrap()), -9007199254740992.0);
    assert_eq!(f64::from_bits(number_from_i64(-123456).unwrap()), -123456.0);
    assert_eq!(number_from_i64(0).unwrap(), 0.0f64.to_bits());
    assert!(matches!(number_from_u64(u64::MAX), Err(Error::CastError)));
    assert!(matches!(serialize_u64(u64::MAX), Err(Error::CastError)));
    for n in [1i64, 2, 3, 7, 255, 1000, 4503599627370497, -9007199254740991] {
        let b = number_from_i64(n).unwrap();
        assert_eq!(b, (n as f64).to_bits());
        assert_eq!(number_to_i64(b, i64::MIN, i64::MAX).unwrap(), n);
    }
    assert_eq!(number_of_magnitude(true, 1).unwrap(), (-1.0f64).to_bits());
    assert!(matches!(number_of_magnitude(false, (1 << 53) + 1), Err(Error::CastError)));
}

#[test]
fn large_integers_that_numbers_hold() {
    match serialize_u64(1 << 60).unwrap() {
        JsValue::Number(b) => assert_eq!(b, 0x43B0_0000_0000_0000),
        other => panic!("unexpected {:?}", other),
    }
    let min = serialize_i64(i64::MIN).unwrap();
    assert!(matches!(min, JsValue::Number(b) if b == (i64::MIN as f64).to_bits()));
    assert_eq!(deserialize_i64(&min, i64::MIN, i64::MAX).unwrap(), i64::MIN);
    for n in [1u64 << 54, (1u64 << 53) + 2, 3u64 << 61, u64::MAX - 2047] {
        let b = number_from_u64(n).unwrap();
        assert_eq!(b, (n as f64).to_bits());
        assert_eq!(number_to_u64(b, u64::MAX).unwrap(), n);
    }
    assert!(matches!(number_from_u64((1u64 << 54) + 2), Err(Error::CastError)));
    assert!(matches!(number_from_i64(-(1i64 << 53) - 1), Err(Error::CastError)));
    assert!(matches!(serialize_u64(u64::MAX - 1), Err(Error::CastError)));
}

#[test]
fn reading_integers_needs_range_and_wholeness() {
    assert!(matches!(deserialize_i64(&num(1.5), i64::MIN, i64::MAX), Err(Error::CastError)));
    assert!(matches!(deserialize_i64(&num(300.0), -128, 127), Err(Error::CastError)));
    assert_eq!(deserialize_i64(&num(-128.0), -128, 127).unwrap(), -128);
    assert_eq!(deserialize_i64(&num(-0.0), -128, 127).unwrap(), 0);
    assert!(matches!(deserialize_u64(&num(-1.0), u64::MAX), Err(Error::CastError)));
    assert_eq!(deserialize_u64(&num(-0.0), 255).unwrap(), 0);
    assert_eq!(deserialize_u64(&num(1152921504606846976.0), u64::MAX).unwrap(), 1 << 60);
    assert_eq!(
        deserialize_i64(&num(-9223372036854775808.0), i64::MIN, i64::MAX).unwrap(),
        i64::MIN
    );
    assert!(matches!(
        deserialize_i64(&num(9223372036854775808.0), i64::MIN, i64::MAX),
        Err(Error::CastError)
    ));
    assert!(matches!(deserialize_u64(&num(18446744073709551616.0), u64::MAX), Err(Error::CastError)));
    assert!(matches!(deserialize_u64(&num(f64::NAN), u64::MAX), Err(Error::CastError)));
    assert!(matches!(deserialize_u64(&num(f64::INFINITY), u64::MAX), Err(Error::CastError)));
    assert!(matches!(deserialize_u64(&num(0.5), u64::MAX), Err(Error::CastError)));
    assert!(matches!(deserialize_u64(&text("1"), u64::MAX), Err(Error::CastError)));
    assert!(matches!(deserialize_f64(&text("1")), Err(Error::CastError)));
    assert_eq!(whole_number(3.0f64.to_bits()), Some((false, 3)));
    assert_eq!(whole_number(0.25f64.to_bits()), None);
    assert_eq!(number_to_u64(4096.0f64.to_bits(), 4096).unwrap(), 4096);
}

#[test]
fn strings_and_bytes() {
    assert_eq!(deserialize_string(&text("héllo")).unwrap(), "héllo");
    assert!(matches!(
        deserialize_string(&num(1.0)),
        Err(Error::UnableToCoerce { to_type: "string" })
    ));
    assert!(matches!(serialize_bytes(&[1, 2]), Err(Error::NotImplemented { name: "bytes" })));
    assert!(matches!(
        deserialize_bytes(&JsValue::Null),
        Err(Error::NotImplemented { name: "bytes" })
    ));
}

#[test]
fn objects_keep_insertion_order_and_replace_values() {
    let mut props: Vec<Property> = Vec::new();
    set_property(&mut props, "x".to_string(), num(1.0));
    set_property(&mut props, "y".to_string(), num(2.0));
    set_property(&mut props, "x".to_string(), num(3.0));
    assert_eq!(props.len(), 2);
    assert_eq!(props[0].key, "x");
    assert!(matches!(props[0].value, JsValue::Number(b) if b == 3.0f64.to_bits()));
    assert_eq!(find_property(&props, &"y".to_string()), Some(1));
    assert_eq!(find_property(&props, &"z".to_string()), None);
}

#[test]
fn map_keys_are_coerced_to_strings() {
    let mut obj = ObjectSerializer::new();
    assert!(obj.serialize_key(text("k")).is_ok());
    assert!(obj.serialize_value(num(1.0)).is_ok());
    assert!(obj.serialize_key(serialize_u64(7).unwrap()).is_ok());
    assert!(obj.serialize_value(num(2.0)).is_ok());
    assert!(obj.serialize_key(serialize_i64(-42).unwrap()).is_ok());
    assert!(obj.serialize_value(num(3.0)).is_ok());
    assert!(obj.serialize_key(serialize_bool(true)).is_ok());
    assert!(obj.serialize_value(num(4.0)).is_ok());
    assert!(matches!(obj.serialize_key(num(1.5)), Err(Error::Serde { .. })));
    assert!(matches!(obj.serialize_key(JsValue::Null), Err(Error::Serde { .. })));
    assert!(matches!(obj.serialize_value(num(5.0)), Err(Error::Serde { .. })));
    match obj.end() {
        JsValue::Object(props) => {
            let keys: Vec<&str> = props.iter().map(|p| p.key.as_str()).collect();
            assert_eq!(keys, vec!["k", "7", "-42", "true"]);
        }
        other => panic!("unexpected {:?}", other),
    }
}

#[test]
fn map_key_text() {
    assert_eq!(map_key(num(0.0)).unwrap(), "0");
    assert_eq!(map_key(num(-0.0)).unwrap(), "0");
    assert_eq!(map_key(num(1152921504606846976.0)).unwrap(), "1152921504606846976");
    assert_eq!(map_key(num(-9007199254740992.0)).unwrap(), "-9007199254740992");
    assert_eq!(map_key(JsValue::Boolean(false)).unwrap(), "false");
    assert_eq!(map_key(text("x")).unwrap(), "x");
    assert!(map_key(num(f64::NAN)).is_none());
    assert!(map_key(JsValue::Array(Vec::new())).is_none());
}

#[test]
fn zero_becomes_positive_zero() {
    assert_eq!(number_from_i64(0).unwrap(), 0);
    assert_eq!(number_from_u64(0).unwrap(), 0);
    match serialize_i64(0).unwrap() {
        JsValue::Number(b) => assert_eq!(b, 0.0f64.to_bits()),
        other => panic!("unexpected {:?}", other),
    }
}

#[test]
fn error_messages() {
    assert_eq!(
        Error::StringTooLong { len: 1234 }.message(),
        "String too long for NodeJS, len: 1234"
    );
    assert_eq!(
        Error::StringTooLongForChar { len: 2 }.message(),
        "String too long to be a char expected len: 1, got 2"
    );
    assert_eq!(
        Error::ArrayIndexOutOfBounds { index: 10, length: 0 }.message(),
        "ArrayIndexOutOfBounds: attempted access to (10) when size: (0)"
    );
    assert_eq!(
        Error::InvalidKeyType { key: "Blue".to_string() }.message(),
        "Error when deserializing enum, found key: 'Blue'"
    );
    assert_eq!(
        Error::UnableToCoerce { to_type: "bool" }.message(),
        "Unable to coerce value to type: bool"
    );
    assert_eq!(
        Error::custom("boom".to_string()).message(),
        "Error occurred while (de)serializing: boom"
    );
    assert_eq!(Error::CastError.message(), "Unable to convert something to f64");
}
