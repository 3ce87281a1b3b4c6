use rmpv_serde::typed::{decode, encode, TyDesc, TypedValue};
use rmpv_serde::value::{Integer, Value};

fn s(text: &str) -> Value {
    Value::Str(text.to_string())
}

#[test]
fn test_exttype_idemp() {
    let f = TypedValue::ExtWrapper(42, vec![1, 2, 3]);
    let val = encode(&f).unwrap();
    let f2 = decode(&val, &TyDesc::ExtBlob).unwrap();
    assert_eq!(f, f2);
}

#[test]
fn test_scalar_roundtrip() {
    let v = TypedValue::U64(23);
    let val = encode(&v).unwrap();
    assert_eq!(val, Value::Int(Integer::Pos(23)));
    assert_eq!(decode(&val, &TyDesc::U64).unwrap(), v);
}

#[test]
fn test_struct_roundtrip() {
    let v = TypedValue::Record(vec![
        ("a".to_string(), TypedValue::I64(42)),
        ("b".to_string(), TypedValue::Text("string".to_string())),
    ]);
    let val = encode(&v).unwrap();
    assert_eq!(
        val,
        Value::Dict(vec![
            (s("a"), Value::Int(Integer::Pos(42))),
            (s("b"), s("string")),
        ])
    );
    let back = decode(&val, &TyDesc::RecordOf(vec![TyDesc::I64, TyDesc::Text])).unwrap();
    assert_eq!(back, v);
}

#[test]
fn test_nested_roundtrip() {
    let v = TypedValue::Record(vec![
        (
            "items".to_string(),
            TypedValue::Sequence(vec![
                TypedValue::U64(1),
                TypedValue::U64(2),
                TypedValue::U64(300),
            ]),
        ),
        (
            "name".to_string(),
            TypedValue::Present(Box::new(TypedValue::Text("deep".to_string()))),
        ),
        ("blob".to_string(), TypedValue::Bytes(vec![0, 255])),
        ("gone".to_string(), TypedValue::Absent),
        ("f".to_string(), TypedValue::F64Bits(3.25f64.to_bits())),
        ("ext".to_string(), TypedValue::ExtWrapper(9, vec![7])),
        (
            "kind".to_string(),
            TypedValue::UnitVariant("Left".to_string()),
        ),
    ]);
    let ty = TyDesc::RecordOf(vec![
        TyDesc::SeqOf(Box::new(TyDesc::U64)),
        TyDesc::OptionOf(Box::new(TyDesc::Text)),
        TyDesc::Bytes,
        TyDesc::OptionOf(Box::new(TyDesc::Bool)),
        TyDesc::F64,
        TyDesc::ExtBlob,
        TyDesc::UnitEnum,
    ]);
    let val = encode(&v).unwrap();
    assert_eq!(decode(&val, &ty).unwrap(), v);
}

#[test]
fn test_narrow_integer_roundtrip() {
    // Values inside the narrow range survive the widen-then-narrow trip.
    let v = TypedValue::U64(255);
    let val = encode(&v).unwrap();
    assert_eq!(decode(&val, &TyDesc::U8).unwrap(), v);

    let w = TypedValue::I64(-128);
    let wal = encode(&w).unwrap();
    assert_eq!(decode(&wal, &TyDesc::I8).unwrap(), w);
}

#[test]
fn test_nested_absent_option_flattens() {
    // Absence and nil are one value on the wire: a present optional
    // holding an absent one comes back plain absent.
    let v = TypedValue::Present(Box::new(TypedValue::Absent));
    let val = encode(&v).unwrap();
    assert_eq!(val, Value::Nil);
    let ty = TyDesc::OptionOf(Box::new(TyDesc::OptionOf(Box::new(TyDesc::Bool))));
    assert_eq!(decode(&val, &ty).unwrap(), TypedValue::Absent);
}
