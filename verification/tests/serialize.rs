use rmpv_serde::ser::Serializer;
use rmpv_serde::typed::{encode, TypedValue};
use rmpv_serde::value::{Integer, Value};
use rmpv_serde::Error;

fn s(text: &str) -> Value {
    Value::Str(text.to_string())
}

fn num(n: i64) -> Value {
    Value::Int(if n < 0 {
        Integer::Neg(n)
    } else {
        Integer::Pos(n as u64)
    })
}

#[test]
fn test_ext_struct() {
    let foo = TypedValue::ExtWrapper(42, vec![1, 2, 3]);
    assert_eq!(encode(&foo).unwrap(), Value::Ext(42, vec![1, 2, 3]));
}

#[test]
fn test_serialize() {
    let v = TypedValue::U64(23);
    assert_eq!(encode(&v).unwrap(), num(23));

    let arr = TypedValue::Sequence(vec![
        TypedValue::I64(1),
        TypedValue::I64(2),
        TypedValue::I64(3),
    ]);
    assert_eq!(
        encode(&arr).unwrap(),
        Value::Arr(vec![num(1), num(2), num(3)])
    );

    let f32val: f32 = 42.0;
    assert_eq!(
        encode(&TypedValue::F32Bits(f32val.to_bits())).unwrap(),
        Value::F32(42.0f32.to_bits())
    );
    let f64val: f64 = 42.0;
    assert_eq!(
        encode(&TypedValue::F64Bits(f64val.to_bits())).unwrap(),
        Value::F64(42.0f64.to_bits())
    );

    let tuple_struct = TypedValue::Sequence(vec![TypedValue::U64(1), TypedValue::U64(2)]);
    assert_eq!(
        encode(&tuple_struct).unwrap(),
        Value::Arr(vec![num(1), num(2)])
    );

    let tuple_variant = TypedValue::TupleVariant(
        "TEnum".to_string(),
        "Tuple".to_string(),
        vec![TypedValue::U64(1), TypedValue::U64(2)],
    );
    assert_eq!(
        encode(&tuple_variant).unwrap(),
        Value::Arr(vec![s("TEnum"), s("Tuple"), num(1), num(2)])
    );

    let newtype_variant = TypedValue::NewtypeVariant(
        "TEnum".to_string(),
        "Newtype".to_string(),
        Box::new(TypedValue::U64(2)),
    );
    assert_eq!(
        encode(&newtype_variant).unwrap(),
        Value::Arr(vec![s("TEnum"), s("Newtype"), num(2)])
    );

    let struct_variant = TypedValue::StructVariant(
        "TEnum".to_string(),
        "Struct".to_string(),
        vec![
            ("a".to_string(), TypedValue::U64(1)),
            ("b".to_string(), TypedValue::U64(2)),
        ],
    );
    assert_eq!(
        encode(&struct_variant).unwrap(),
        Value::Arr(vec![
            s("TEnum"),
            s("Struct"),
            Value::Dict(vec![(s("a"), num(1)), (s("b"), num(2))]),
        ])
    );

    let map = TypedValue::Record(vec![("a".to_string(), TypedValue::I64(1))]);
    assert_eq!(
        encode(&map).unwrap(),
        Value::Dict(vec![(s("a"), num(1))])
    );

    let record = TypedValue::Record(vec![
        ("a".to_string(), TypedValue::U64(1)),
        ("b".to_string(), TypedValue::U64(2)),
    ]);
    assert_eq!(
        encode(&record).unwrap(),
        Value::Dict(vec![(s("a"), num(1)), (s("b"), num(2))])
    );
}

#[test]
fn test_serialize_scalars() {
    assert_eq!(encode(&TypedValue::Bool(true)).unwrap(), Value::Bool(true));
    assert_eq!(encode(&TypedValue::I64(-7)).unwrap(), num(-7));
    assert_eq!(
        encode(&TypedValue::Text("hi".to_string())).unwrap(),
        s("hi")
    );
    assert_eq!(
        encode(&TypedValue::Bytes(vec![9, 8])).unwrap(),
        Value::Bin(vec![9, 8])
    );
    assert_eq!(encode(&TypedValue::Unit).unwrap(), Value::Nil);
    assert_eq!(encode(&TypedValue::Absent).unwrap(), Value::Nil);
    assert_eq!(
        encode(&TypedValue::Present(Box::new(TypedValue::Bool(false)))).unwrap(),
        Value::Bool(false)
    );
    assert_eq!(
        encode(&TypedValue::UnitVariant("Apple".to_string())).unwrap(),
        s("Apple")
    );
}

#[test]
fn test_serialize_negative_ext_tag_fails() {
    let bad = TypedValue::ExtWrapper(-1, vec![1]);
    match encode(&bad) {
        Err(Error::Format(m)) => assert_eq!(m, "invalid ext struct"),
        other => panic!("expected a format error, got {:?}", other),
    }
}

#[test]
fn test_serializer_state_machine() {
    // A map built key by key, value by value.
    let mut ser = Serializer::new();
    ser.serialize_map(None).unwrap();
    let mut keyser = Serializer::new();
    keyser.serialize_str("k").unwrap();
    ser.serialize_map_key(keyser.into_output()).unwrap();
    let mut valser = Serializer::new();
    valser.serialize_u64(5).unwrap();
    ser.serialize_map_value(valser.into_output()).unwrap();
    assert_eq!(ser.into_output(), Value::Dict(vec![(s("k"), num(5))]));

    // Appending an element while no array is open is refused.
    let mut bad = Serializer::new();
    bad.serialize_bool(true).unwrap();
    match bad.serialize_seq_element(Value::Nil) {
        Err(Error::Format(m)) => assert_eq!(m, "expected array"),
        other => panic!("expected a format error, got {:?}", other),
    }

    // A character becomes a one-character string.
    let mut cs = Serializer::new();
    cs.serialize_char('x').unwrap();
    assert_eq!(cs.into_output(), s("x"));

    // A named wrapper that is not the extension marker passes through.
    let mut ns = Serializer::new();
    ns.serialize_newtype_struct("Plain", num(3)).unwrap();
    assert_eq!(ns.into_output(), num(3));

    // The extension marker collapses a well-formed pair into an Ext.
    let mut es = Serializer::new();
    es.serialize_newtype_struct(
        rmpv_serde::MSGPACK_EXT_STRUCT_NAME,
        Value::Arr(vec![num(7), Value::Bin(vec![4])]),
    )
    .unwrap();
    assert_eq!(es.into_output(), Value::Ext(7, vec![4]));

    // The marker with a malformed pair is refused.
    let mut ms = Serializer::new();
    match ms.serialize_newtype_struct(
        rmpv_serde::MSGPACK_EXT_STRUCT_NAME,
        Value::Arr(vec![s("no"), Value::Bin(vec![4])]),
    ) {
        Err(Error::Format(m)) => assert_eq!(m, "invalid ext struct"),
        other => panic!("expected a format error, got {:?}", other),
    }
}
