use rmpv_serde::de::{ArrayAccess, Deserializer, ExtPart, SeqShape, UnitVariantAccess, WideFloat};
use rmpv_serde::typed::{decode, TyDesc, TypedValue};
use rmpv_serde::value::{Integer, Value};
use rmpv_serde::Error;

fn s(text: &str) -> Value {
    Value::Str(text.to_string())
}

fn num(n: i64) -> Value {
    Value::Int(if n < 0 {
        Integer::Neg(n)
    } else {
        Integer::Pos(n as u64)
    })
}

#[test]
fn test_exttype() {
    let ext = Value::Ext(42, vec![1, 2, 3]);
    let foo = decode(&ext, &TyDesc::ExtBlob).unwrap();
    assert_eq!(TypedValue::ExtWrapper(42, vec![1, 2, 3]), foo);
}

#[test]
fn test_deserialize() {
    decode(&s("foo"), &TyDesc::I8).expect_err("expected unimplemented");

    assert_eq!(
        TypedValue::Text("string".to_string()),
        decode(&s("string"), &TyDesc::Text).unwrap()
    );

    assert_eq!(TypedValue::I64(42), decode(&num(42), &TyDesc::I64).unwrap());

    let test_struct = Value::Dict(vec![(s("a"), num(42)), (s("b"), s("string"))]);
    assert_eq!(
        TypedValue::Record(vec![
            ("a".to_string(), TypedValue::I64(42)),
            ("b".to_string(), TypedValue::Text("string".to_string())),
        ]),
        decode(&test_struct, &TyDesc::RecordOf(vec![TyDesc::I32, TyDesc::Text])).unwrap()
    );
}

#[test]
fn test_unsupported_requests_fail_cleanly() {
    // A character request fails as unsupported on every value.
    assert_eq!(
        decode(&s("a"), &TyDesc::Char),
        Err(Error::UnsupportedType)
    );
    assert_eq!(
        decode(&Value::Nil, &TyDesc::Char),
        Err(Error::UnsupportedType)
    );

    // A 32-bit float request fails as unsupported on every value.
    assert_eq!(
        decode(&Value::F32(42.0f32.to_bits()), &TyDesc::F32),
        Err(Error::UnsupportedType)
    );

    // Text never reads as a narrow integer: a shape error.
    assert!(matches!(
        decode(&s("foo"), &TyDesc::I8),
        Err(Error::TypeError(_))
    ));

    // Payload-bearing variant requests always fail, naming the shape.
    let v = s("Variant");
    let acc = UnitVariantAccess::new(Deserializer::from_value(&v));
    assert_eq!(acc.variant().unwrap(), "Variant");
    acc.unit_variant().unwrap();
    match acc.newtype_variant() {
        Err(Error::TypeError(m)) => assert_eq!(m, "newtype variant"),
        other => panic!("expected a shape error, got {:?}", other),
    }
    match acc.tuple_variant(2) {
        Err(Error::TypeError(m)) => assert_eq!(m, "tuple variant"),
        other => panic!("expected a shape error, got {:?}", other),
    }
    match acc.struct_variant() {
        Err(Error::TypeError(m)) => assert_eq!(m, "struct variant"),
        other => panic!("expected a shape error, got {:?}", other),
    }
}

#[test]
fn test_truncation_is_silent() {
    // Decoding 300 as an 8-bit unsigned integer wraps to 300 mod 256; the
    // narrowing is silent by design, not checked.
    assert_eq!(
        decode(&num(300), &TyDesc::U8).unwrap(),
        TypedValue::U64(300 % 256)
    );
    assert_eq!(
        decode(&num(-1), &TyDesc::I8).unwrap(),
        TypedValue::I64(-1)
    );
    // A negative value has no unsigned reading at all.
    assert!(matches!(
        decode(&num(-1), &TyDesc::U8),
        Err(Error::TypeError(_))
    ));
}

#[test]
fn test_deserialize_scalars_and_options() {
    assert_eq!(
        decode(&Value::Bool(true), &TyDesc::Bool).unwrap(),
        TypedValue::Bool(true)
    );
    assert_eq!(
        decode(&Value::Nil, &TyDesc::Unit).unwrap(),
        TypedValue::Unit
    );
    assert_eq!(
        decode(&Value::Nil, &TyDesc::OptionOf(Box::new(TyDesc::Bool))).unwrap(),
        TypedValue::Absent
    );
    assert_eq!(
        decode(&Value::Bool(false), &TyDesc::OptionOf(Box::new(TyDesc::Bool))).unwrap(),
        TypedValue::Present(Box::new(TypedValue::Bool(false)))
    );
    assert_eq!(
        decode(&Value::Bin(vec![1, 2]), &TyDesc::Bytes).unwrap(),
        TypedValue::Bytes(vec![1, 2])
    );
    assert_eq!(
        decode(&Value::F64(1.5f64.to_bits()), &TyDesc::F64).unwrap(),
        TypedValue::F64Bits(1.5f64.to_bits())
    );
    assert_eq!(
        decode(&s("Apple"), &TyDesc::UnitEnum).unwrap(),
        TypedValue::UnitVariant("Apple".to_string())
    );
}

#[test]
fn test_record_count_mismatch() {
    let one_entry = Value::Dict(vec![(s("a"), num(1))]);
    assert!(matches!(
        decode(&one_entry, &TyDesc::RecordOf(vec![TyDesc::I64, TyDesc::I64])),
        Err(Error::Format(_))
    ));
    assert!(matches!(
        decode(&one_entry, &TyDesc::RecordOf(vec![])),
        Err(Error::Format(_))
    ));
    // A non-text key is a shape error.
    let bad_key = Value::Dict(vec![(num(1), num(1))]);
    assert!(matches!(
        decode(&bad_key, &TyDesc::RecordOf(vec![TyDesc::I64])),
        Err(Error::TypeError(_))
    ));
}

#[test]
fn test_decoder_primitives() {
    let v = num(7);
    let d = Deserializer::from_value(&v);
    assert_eq!(d.deserialize_u64().unwrap(), 7);
    assert_eq!(d.deserialize_i64().unwrap(), 7);
    assert!(matches!(d.deserialize_str(), Err(Error::TypeError(_))));
    assert!(matches!(d.deserialize_bytes(), Err(Error::TypeError(_))));

    // A 64-bit float request reports what the source was.
    assert_eq!(d.deserialize_f64().unwrap(), WideFloat::FromInt(Integer::Pos(7)));
    let f = Value::F32(2.5f32.to_bits());
    assert_eq!(
        Deserializer::from_value(&f).deserialize_f64().unwrap(),
        WideFloat::FromF32(2.5f32.to_bits())
    );

    // An array read element by element, in stored order, then exhausted.
    let arr = Value::Arr(vec![num(1), s("x")]);
    let da = Deserializer::from_value(&arr);
    match da.deserialize_seq().unwrap() {
        SeqShape::Elements(mut acc) => {
            assert_eq!(acc.next_element().unwrap(), Some(&num(1)));
            assert_eq!(acc.next_element().unwrap(), Some(&s("x")));
            assert_eq!(acc.next_element().unwrap(), None);
            assert_eq!(acc.next_element().unwrap(), None);
        }
        other => panic!("expected elements, got {:?}", matches!(other, SeqShape::Bytes(_))),
    }

    // A cursor over a value that is no array reports the mismatch.
    let mut bad = ArrayAccess::new(Deserializer::from_value(&v));
    assert!(matches!(bad.next_element(), Err(Error::TypeError(_))));

    // An extension blob read as a sequence: tag, bytes, end.
    let ext = Value::Ext(5, vec![9]);
    match Deserializer::from_value(&ext).deserialize_seq().unwrap() {
        SeqShape::Ext(mut e) => {
            assert_eq!(e.next_part(), Some(ExtPart::Tag));
            assert_eq!(e.tag_value(), 5);
            assert_eq!(e.next_part(), Some(ExtPart::Data));
            assert_eq!(e.data_value(), &[9]);
            assert_eq!(e.next_part(), None);
        }
        _ => panic!("expected the extension shape"),
    }

    // A map read key then value, in stored order.
    let dict = Value::Dict(vec![(s("k"), num(3))]);
    let dm = Deserializer::from_value(&dict);
    let mut acc = dm.deserialize_map().unwrap();
    assert_eq!(acc.next_key().unwrap(), Some(&s("k")));
    assert_eq!(acc.next_value().unwrap(), &num(3));
    assert_eq!(acc.next_key().unwrap(), None);
}
