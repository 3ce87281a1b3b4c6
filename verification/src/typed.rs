//! The closed set of typed shapes the two engines are driven over, the
//! executable entry points that convert them, and the round-trip law
//! between encoder and decoder.
//!
//! [`TypedValue`] stands for a statically-typed value as the protocol sees
//! it; [`TyDesc`] stands for a target type's reconstruction request.
//! [`encode`] walks a `TypedValue` through the [`crate::ser::Serializer`]
//! callbacks; [`decode`] drives the [`crate::de::Deserializer`] by a
//! `TyDesc`. Their behaviour is pinned by the spec functions
//! [`spec_encode`] and [`spec_decode`], and [`lemma_round_trip`] proves
//! that decoding an encoded value gives the value back.

use vstd::prelude::*;

use crate::de::{Deserializer, SeqShape, WideFloat};
use crate::error::Error;
use crate::ser::Serializer;
use crate::value::{Dyn, Value};

verus! {

/// A typed value, closed over the shapes the protocol maps: scalars, text,
/// bytes, optionals, sequences, named-field records, the four kinds of
/// tagged-union variant, and the extension-blob wrapper.
#[derive(Debug, PartialEq)]
pub enum TypedValue {
    Bool(bool),
    /// An unsigned integer of any width, already widened to 64 bits.
    U64(u64),
    /// A signed integer of any width, already widened to 64 bits.
    I64(i64),
    /// A 32-bit float, carried as its IEEE 754 bit pattern.
    F32Bits(u32),
    /// A 64-bit float, carried as its IEEE 754 bit pattern.
    F64Bits(u64),
    Text(String),
    Bytes(Vec<u8>),
    /// The anonymous empty value.
    Unit,
    /// An absent optional.
    Absent,
    /// A present optional.
    Present(Box<TypedValue>),
    Sequence(Vec<TypedValue>),
    /// A named-field aggregate: fields in declaration order.
    Record(Vec<(String, TypedValue)>),
    /// A payload-free variant: its name.
    UnitVariant(String),
    /// Type name, variant name, one unnamed payload.
    NewtypeVariant(String, String, Box<TypedValue>),
    /// Type name, variant name, ordered payload list.
    TupleVariant(String, String, Vec<TypedValue>),
    /// Type name, variant name, named fields.
    StructVariant(String, String, Vec<(String, TypedValue)>),
    /// The extension-blob wrapper: an 8-bit tag and bytes.
    ExtWrapper(i8, Vec<u8>),
}

/// The mathematical model of a [`TypedValue`]: the same tree over `Seq`.
#[verifier::ext_equal]
pub enum TypedModel {
    Bool(bool),
    U64(u64),
    I64(i64),
    F32Bits(u32),
    F64Bits(u64),
    Text(Seq<char>),
    Bytes(Seq<u8>),
    Unit,
    Absent,
    Present(Box<TypedModel>),
    Sequence(Seq<TypedModel>),
    Record(Seq<(Seq<char>, TypedModel)>),
    UnitVariant(Seq<char>),
    NewtypeVariant(Seq<char>, Seq<char>, Box<TypedModel>),
    TupleVariant(Seq<char>, Seq<char>, Seq<TypedModel>),
    StructVariant(Seq<char>, Seq<char>, Seq<(Seq<char>, TypedModel)>),
    ExtWrapper(i8, Seq<u8>),
}

/// The models of a sequence of typed values, elementwise.
pub open spec fn model_typed_seq(s: Seq<TypedValue>) -> Seq<TypedModel>
    decreases s,
{
    if s.len() == 0 {
        Seq::empty()
    } else {
        model_typed_seq(s.drop_last()).push(s.last().model())
    }
}

/// The models of a sequence of named fields, elementwise.
pub open spec fn model_typed_fields(s: Seq<(String, TypedValue)>) -> Seq<(Seq<char>, TypedModel)>
    decreases s,
{
    if s.len() == 0 {
        Seq::empty()
    } else {
        model_typed_fields(s.drop_last()).push((s.last().0@, s.last().1.model()))
    }
}

/// `model_typed_seq` maps elementwise.
pub broadcast proof fn lemma_model_typed_seq(s: Seq<TypedValue>)
    ensures
        #[trigger] model_typed_seq(s).len() == s.len(),
        forall|i: int| 0 <= i < s.len() ==> #[trigger] model_typed_seq(s)[i] == s[i].model(),
    decreases s,
{
    if s.len() > 0 {
        lemma_model_typed_seq(s.drop_last());
        assert forall|i: int| 0 <= i < s.len() implies #[trigger] model_typed_seq(s)[i]
            == s[i].model() by {
            if i < s.len() - 1 {
                assert(s.drop_last()[i] == s[i]);
            } else {
                assert(s[i] == s.last());
            }
        }
    }
}

/// `model_typed_fields` maps elementwise.
pub broadcast proof fn lemma_model_typed_fields(s: Seq<(String, TypedValue)>)
    ensures
        #[trigger] model_typed_fields(s).len() == s.len(),
        forall|i: int|
            0 <= i < s.len() ==> #[trigger] model_typed_fields(s)[i] == (s[i].0@, s[i].1.model()),
    decreases s,
{
    if s.len() > 0 {
        lemma_model_typed_fields(s.drop_last());
        assert forall|i: int|
            0 <= i < s.len() implies #[trigger] model_typed_fields(s)[i] == (s[i].0@,
        s[i].1.model()) by {
            if i < s.len() - 1 {
                assert(s.drop_last()[i] == s[i]);
            } else {
                assert(s[i] == s.last());
            }
        }
    }
}

impl TypedValue {
    /// The mathematical value this tree stands for.
    pub open spec fn model(self) -> TypedModel
        decreases self,
    {
        match self {
            TypedValue::Bool(b) => TypedModel::Bool(b),
            TypedValue::U64(v) => TypedModel::U64(v),
            TypedValue::I64(v) => TypedModel::I64(v),
            TypedValue::F32Bits(b) => TypedModel::F32Bits(b),
            TypedValue::F64Bits(b) => TypedModel::F64Bits(b),
            TypedValue::Text(s) => TypedModel::Text(s@),
            TypedValue::Bytes(b) => TypedModel::Bytes(b@),
            TypedValue::Unit => TypedModel::Unit,
            TypedValue::Absent => TypedModel::Absent,
            TypedValue::Present(inner) => TypedModel::Present(Box::new(inner.model())),
            TypedValue::Sequence(elems) => TypedModel::Sequence(model_typed_seq(elems@)),
            TypedValue::Record(fields) => TypedModel::Record(model_typed_fields(fields@)),
            TypedValue::UnitVariant(v) => TypedModel::UnitVariant(v@),
            TypedValue::NewtypeVariant(n, v, inner) => TypedModel::NewtypeVariant(
                n@,
                v@,
                Box::new(inner.model()),
            ),
            TypedValue::TupleVariant(n, v, elems) => TypedModel::TupleVariant(
                n@,
                v@,
                model_typed_seq(elems@),
            ),
            TypedValue::StructVariant(n, v, fields) => TypedModel::StructVariant(
                n@,
                v@,
                model_typed_fields(fields@),
            ),
            TypedValue::ExtWrapper(tag, data) => TypedModel::ExtWrapper(tag, data@),
        }
    }
}

/// What the encoder makes of a typed value: the one dynamic value, or
/// nothing where encoding fails (only a malformed extension wrapper, whose
/// tag the format reads as unsigned, fails: a negative tag).
pub open spec fn spec_encode(t: TypedModel) -> Option<Dyn>
    decreases t,
{
    match t {
        TypedModel::Bool(b) => Some(Dyn::Bool(b)),
        TypedModel::U64(v) => Some(Dyn::Int(v as int)),
        TypedModel::I64(v) => Some(Dyn::Int(v as int)),
        TypedModel::F32Bits(b) => Some(Dyn::F32(b)),
        TypedModel::F64Bits(b) => Some(Dyn::F64(b)),
        TypedModel::Text(s) => Some(Dyn::Str(s)),
        TypedModel::Bytes(b) => Some(Dyn::Bin(b)),
        TypedModel::Unit => Some(Dyn::Nil),
        TypedModel::Absent => Some(Dyn::Nil),
        TypedModel::Present(inner) => spec_encode(*inner),
        TypedModel::Sequence(elems) => match spec_encode_seq(elems) {
            Some(ds) => Some(Dyn::Arr(ds)),
            None => None,
        },
        TypedModel::Record(fields) => match spec_encode_fields(fields) {
            Some(ps) => Some(Dyn::Dict(ps)),
            None => None,
        },
        TypedModel::UnitVariant(v) => Some(Dyn::Str(v)),
        TypedModel::NewtypeVariant(n, v, inner) => match spec_encode(*inner) {
            Some(d) => Some(Dyn::Arr(seq![Dyn::Str(n), Dyn::Str(v), d])),
            None => None,
        },
        TypedModel::TupleVariant(n, v, elems) => match spec_encode_seq(elems) {
            Some(ds) => Some(Dyn::Arr(seq![Dyn::Str(n), Dyn::Str(v)] + ds)),
            None => None,
        },
        TypedModel::StructVariant(n, v, fields) => match spec_encode_fields(fields) {
            Some(ps) => Some(Dyn::Arr(seq![Dyn::Str(n), Dyn::Str(v), Dyn::Dict(ps)])),
            None => None,
        },
        TypedModel::ExtWrapper(tag, data) => if tag >= 0 {
            Some(Dyn::Ext(tag, data))
        } else {
            None
        },
    }
}

/// Encodes a sequence of typed values elementwise, failing on the first
/// element that fails.
pub open spec fn spec_encode_seq(s: Seq<TypedModel>) -> Option<Seq<Dyn>>
    decreases s,
{
    if s.len() == 0 {
        Some(Seq::empty())
    } else {
        match (spec_encode_seq(s.drop_last()), spec_encode(s.last())) {
            (Some(init), Some(d)) => Some(init.push(d)),
            _ => None,
        }
    }
}

/// Encodes named fields in order: each key becomes a string key, each
/// value is encoded independently; fails on the first value that fails.
pub open spec fn spec_encode_fields(s: Seq<(Seq<char>, TypedModel)>) -> Option<Seq<(Dyn, Dyn)>>
    decreases s,
{
    if s.len() == 0 {
        Some(Seq::empty())
    } else {
        match (spec_encode_fields(s.drop_last()), spec_encode(s.last().1)) {
            (Some(init), Some(d)) => Some(init.push((Dyn::Str(s.last().0), d))),
            _ => None,
        }
    }
}

/// A target type's reconstruction request: which shape the decoder is
/// asked for.
#[derive(Debug, PartialEq)]
pub enum TyDesc {
    Bool,
    U8,
    U16,
    U32,
    U64,
    I8,
    I16,
    I32,
    I64,
    /// 32-bit float: requested, but the decoder never supports it.
    F32,
    F64,
    /// Single character: requested, but the decoder never supports it.
    Char,
    Text,
    Bytes,
    Unit,
    OptionOf(Box<TyDesc>),
    SeqOf(Box<TyDesc>),
    /// A named-field aggregate: the field value types in declaration
    /// order; every key is text.
    RecordOf(Vec<TyDesc>),
    /// A tagged union of payload-free variants.
    UnitEnum,
    /// The extension-blob wrapper.
    ExtBlob,
}

/// The kind of failure a decode ends in; the executable decoder refines
/// each kind with a message.
#[verifier::ext_equal]
pub enum DecodeErr {
    /// The runtime tag does not match the requested shape.
    Shape,
    /// A structurally invalid request: a field count that cannot be
    /// served.
    Malformed,
    /// A request the decoder does not map at all.
    Unsupported,
}

/// What the decoder makes of a dynamic value under a reconstruction
/// request: the typed value, or the first failure in traversal order.
pub open spec fn spec_decode(d: Dyn, ty: TyDesc) -> Result<TypedModel, DecodeErr>
    decreases d, ty,
{
    match ty {
        TyDesc::Bool => match d {
            Dyn::Bool(b) => Ok(TypedModel::Bool(b)),
            _ => Err(DecodeErr::Shape),
        },
        TyDesc::U8 => match d {
            Dyn::Int(n) => if 0 <= n {
                Ok(TypedModel::U64((n as u8) as u64))
            } else {
                Err(DecodeErr::Shape)
            },
            _ => Err(DecodeErr::Shape),
        },
        TyDesc::U16 => match d {
            Dyn::Int(n) => if 0 <= n {
                Ok(TypedModel::U64((n as u16) as u64))
            } else {
                Err(DecodeErr::Shape)
            },
            _ => Err(DecodeErr::Shape),
        },
        TyDesc::U32 => match d {
            Dyn::Int(n) => if 0 <= n {
                Ok(TypedModel::U64((n as u32) as u64))
            } else {
                Err(DecodeErr::Shape)
            },
            _ => Err(DecodeErr::Shape),
        },
        TyDesc::U64 => match d {
            Dyn::Int(n) => if 0 <= n {
                Ok(TypedModel::U64(n as u64))
            } else {
                Err(DecodeErr::Shape)
            },
            _ => Err(DecodeErr::Shape),
        },
        TyDesc::I8 => match d {
            Dyn::Int(n) => if i64::MIN <= n <= i64::MAX {
                Ok(TypedModel::I64((n as i8) as i64))
            } else {
                Err(DecodeErr::Shape)
            },
            _ => Err(DecodeErr::Shape),
        },
        TyDesc::I16 => match d {
            Dyn::Int(n) => if i64::MIN <= n <= i64::MAX {
                Ok(TypedModel::I64((n as i16) as i64))
            } else {
                Err(DecodeErr::Shape)
            },
            _ => Err(DecodeErr::Shape),
        },
        TyDesc::I32 => match d {
            Dyn::Int(n) => if i64::MIN <= n <= i64::MAX {
                Ok(TypedModel::I64((n as i32) as i64))
            } else {
                Err(DecodeErr::Shape)
            },
            _ => Err(DecodeErr::Shape),
        },
        TyDesc::I64 => match d {
            Dyn::Int(n) => if i64::MIN <= n <= i64::MAX {
                Ok(TypedModel::I64(n as i64))
            } else {
                Err(DecodeErr::Shape)
            },
            _ => Err(DecodeErr::Shape),
        },
        TyDesc::F32 => Err(DecodeErr::Unsupported),
        TyDesc::F64 => match d {
            Dyn::F64(bits) => Ok(TypedModel::F64Bits(bits)),
            Dyn::F32(_) => Err(DecodeErr::Unsupported),
            Dyn::Int(_) => Err(DecodeErr::Unsupported),
            _ => Err(DecodeErr::Shape),
        },
        TyDesc::Char => Err(DecodeErr::Unsupported),
        TyDesc::Text => match d {
            Dyn::Str(s) => Ok(TypedModel::Text(s)),
            _ => Err(DecodeErr::Shape),
        },
        TyDesc::Bytes => match d {
            Dyn::Bin(b) => Ok(TypedModel::Bytes(b)),
            _ => Err(DecodeErr::Shape),
        },
        TyDesc::Unit => match d {
            Dyn::Nil => Ok(TypedModel::Unit),
            _ => Err(DecodeErr::Shape),
        },
        TyDesc::OptionOf(inner) => match d {
            Dyn::Nil => Ok(TypedModel::Absent),
            _ => match spec_decode(d, *inner) {
                Ok(t) => Ok(TypedModel::Present(Box::new(t))),
                Err(e) => Err(e),
            },
        },
        TyDesc::SeqOf(elem) => match d {
            Dyn::Arr(s) => match spec_decode_elems(s, *elem) {
                Ok(ts) => Ok(TypedModel::Sequence(ts)),
                Err(e) => Err(e),
            },
            _ => Err(DecodeErr::Shape),
        },
        TyDesc::RecordOf(fds) => match d {
            Dyn::Dict(ps) => match spec_decode_fields(ps, fds@) {
                Ok(fs) => Ok(TypedModel::Record(fs)),
                Err(e) => Err(e),
            },
            _ => Err(DecodeErr::Shape),
        },
        TyDesc::UnitEnum => match d {
            Dyn::Str(s) => Ok(TypedModel::UnitVariant(s)),
            _ => Err(DecodeErr::Shape),
        },
        TyDesc::ExtBlob => match d {
            Dyn::Ext(tag, data) => Ok(TypedModel::ExtWrapper(tag, data)),
            Dyn::Arr(s) => if s.len() == 0 {
                Err(DecodeErr::Malformed)
            } else {
                match s[0] {
                    Dyn::Int(n) => if i64::MIN <= n <= i64::MAX {
                        if s.len() < 2 {
                            Err(DecodeErr::Malformed)
                        } else {
                            match s[1] {
                                Dyn::Bin(b) => Ok(
                                    TypedModel::ExtWrapper((n as i8), b),
                                ),
                                _ => Err(DecodeErr::Shape),
                            }
                        }
                    } else {
                        Err(DecodeErr::Shape)
                    },
                    _ => Err(DecodeErr::Shape),
                }
            },
            _ => Err(DecodeErr::Shape),
        },
    }
}

/// Decodes each element of an array under one element request, failing on
/// the first element that fails.
pub open spec fn spec_decode_elems(s: Seq<Dyn>, ty: TyDesc) -> Result<Seq<TypedModel>, DecodeErr>
    decreases s, ty,
{
    if s.len() == 0 {
        Ok(Seq::empty())
    } else {
        match spec_decode_elems(s.drop_last(), ty) {
            Ok(init) => match spec_decode(s.last(), ty) {
                Ok(t) => Ok(init.push(t)),
                Err(e) => Err(e),
            },
            Err(e) => Err(e),
        }
    }
}

/// Decodes a map's entries against field requests in declaration order:
/// each key must be text, each value decodes under its field's request,
/// and the entry count must match the field count exactly.
pub open spec fn spec_decode_fields(ps: Seq<(Dyn, Dyn)>, fds: Seq<TyDesc>) -> Result<
    Seq<(Seq<char>, TypedModel)>,
    DecodeErr,
>
    decreases ps, fds,
{
    if fds.len() == 0 {
        if ps.len() == 0 {
            Ok(Seq::empty())
        } else {
            Err(DecodeErr::Malformed)
        }
    } else if ps.len() == 0 {
        Err(DecodeErr::Malformed)
    } else {
        match ps.first().0 {
            Dyn::Str(k) => match spec_decode(ps.first().1, fds.first()) {
                Ok(t) => match spec_decode_fields(ps.drop_first(), fds.drop_first()) {
                    Ok(rest) => Ok(seq![(k, t)] + rest),
                    Err(e) => Err(e),
                },
                Err(e) => Err(e),
            },
            _ => Err(DecodeErr::Shape),
        }
    }
}

/// Whether a reconstruction request fits a typed value: the shapes agree,
/// narrow integer requests cover the value, and containers agree
/// elementwise. No request fits a 32-bit float or a payload-bearing
/// variant: decoding those is unsupported.
pub open spec fn describes(ty: TyDesc, t: TypedModel) -> bool
    decreases t, ty,
{
    match (ty, t) {
        (TyDesc::Bool, TypedModel::Bool(_)) => true,
        (TyDesc::U8, TypedModel::U64(x)) => x <= u8::MAX,
        (TyDesc::U16, TypedModel::U64(x)) => x <= u16::MAX,
        (TyDesc::U32, TypedModel::U64(x)) => x <= u32::MAX,
        (TyDesc::U64, TypedModel::U64(_)) => true,
        (TyDesc::I8, TypedModel::I64(x)) => i8::MIN <= x <= i8::MAX,
        (TyDesc::I16, TypedModel::I64(x)) => i16::MIN <= x <= i16::MAX,
        (TyDesc::I32, TypedModel::I64(x)) => i32::MIN <= x <= i32::MAX,
        (TyDesc::I64, TypedModel::I64(_)) => true,
        (TyDesc::F64, TypedModel::F64Bits(_)) => true,
        (TyDesc::Text, TypedModel::Text(_)) => true,
        (TyDesc::Bytes, TypedModel::Bytes(_)) => true,
        (TyDesc::Unit, TypedModel::Unit) => true,
        (TyDesc::OptionOf(_), TypedModel::Absent) => true,
        (TyDesc::OptionOf(inner), TypedModel::Present(ti)) => describes(*inner, *ti),
        (TyDesc::SeqOf(elem), TypedModel::Sequence(s)) => forall|j: int|
            0 <= j < s.len() ==> describes(*elem, #[trigger] s[j]),
        (TyDesc::RecordOf(fs), TypedModel::Record(ps)) => fs@.len() == ps.len() && forall|j: int|
            0 <= j < ps.len() ==> describes(fs@[j], (#[trigger] ps[j]).1),
        (TyDesc::UnitEnum, TypedModel::UnitVariant(_)) => true,
        (TyDesc::ExtBlob, TypedModel::ExtWrapper(_, _)) => true,
        _ => false,
    }
}

/// The values the round trip holds of: every extension tag is
/// non-negative (the encoder refuses the rest), and no present optional
/// wraps a nil-encoding value (absence and nil are one value on the wire,
/// so a nested absent optional cannot come back).
pub open spec fn rt_ok(t: TypedModel) -> bool
    decreases t,
{
    match t {
        TypedModel::Present(inner) => rt_ok(*inner) && spec_encode(*inner) != Some(Dyn::Nil),
        TypedModel::Sequence(s) => forall|j: int| 0 <= j < s.len() ==> rt_ok(#[trigger] s[j]),
        TypedModel::Record(ps) => forall|j: int| 0 <= j < ps.len() ==> rt_ok((#[trigger] ps[j]).1),
        TypedModel::ExtWrapper(tag, _) => tag >= 0,
        _ => true,
    }
}

/// When every field value encodes, the whole field list encodes, to
/// string keys beside the encoded values, in order.
proof fn lemma_encode_fields_all_some(ps: Seq<(Seq<char>, TypedModel)>)
    requires
        forall|j: int| 0 <= j < ps.len() ==> spec_encode((#[trigger] ps[j]).1) is Some,
    ensures
        spec_encode_fields(ps) matches Some(dps) && dps.len() == ps.len() && forall|j: int|
            0 <= j < ps.len() ==> #[trigger] dps[j] == (
                Dyn::Str(ps[j].0),
                spec_encode(ps[j].1)->Some_0,
            ),
    decreases ps,
{
    if ps.len() > 0 {
        assert forall|j: int|
            0 <= j < ps.drop_last().len() implies spec_encode(
            (#[trigger] ps.drop_last()[j]).1,
        ) is Some by {
            assert(ps.drop_last()[j] == ps[j]);
        }
        lemma_encode_fields_all_some(ps.drop_last());
        assert(ps.last() == ps[ps.len() - 1]);
        assert forall|j: int|
            0 <= j < ps.len() implies #[trigger] spec_encode_fields(ps)->Some_0[j] == (
            Dyn::Str(ps[j].0),
            spec_encode(ps[j].1)->Some_0,
        ) by {
            if j < ps.len() - 1 {
                assert(ps.drop_last()[j] == ps[j]);
            }
        }
    }
}

/// Round trip for every element of a sequence.
proof fn lemma_round_trip_elems(ty: TyDesc, s: Seq<TypedModel>)
    requires
        forall|j: int| 0 <= j < s.len() ==> describes(ty, #[trigger] s[j]),
        forall|j: int| 0 <= j < s.len() ==> rt_ok(#[trigger] s[j]),
    ensures
        spec_encode_seq(s) matches Some(ds) && spec_decode_elems(ds, ty) == Ok::<
            Seq<TypedModel>,
            DecodeErr,
        >(s),
    decreases s, ty,
{
    if s.len() == 0 {
        assert(s =~= Seq::<TypedModel>::empty());
    } else {
        assert forall|j: int|
            0 <= j < s.drop_last().len() implies describes(ty, #[trigger] s.drop_last()[j])
            && rt_ok(s.drop_last()[j]) by {
            assert(s.drop_last()[j] == s[j]);
        }
        lemma_round_trip_elems(ty, s.drop_last());
        lemma_round_trip(ty, s.last());
        let init = spec_encode_seq(s.drop_last())->Some_0;
        let d = spec_encode(s.last())->Some_0;
        assert(init.push(d).drop_last() =~= init);
        assert(s.drop_last().push(s.last()) =~= s);
    }
}

/// Round trip for every field of a record.
proof fn lemma_round_trip_fields(fs: Seq<TyDesc>, ps: Seq<(Seq<char>, TypedModel)>)
    requires
        fs.len() == ps.len(),
        forall|j: int| 0 <= j < ps.len() ==> describes(fs[j], (#[trigger] ps[j]).1),
        forall|j: int| 0 <= j < ps.len() ==> rt_ok((#[trigger] ps[j]).1),
    ensures
        spec_encode_fields(ps) matches Some(dps) && spec_decode_fields(dps, fs) == Ok::<
            Seq<(Seq<char>, TypedModel)>,
            DecodeErr,
        >(ps),
    decreases ps, fs,
{
    assert forall|j: int| 0 <= j < ps.len() implies spec_encode((#[trigger] ps[j]).1) is Some by {
        lemma_round_trip(fs[j], ps[j].1);
    }
    lemma_encode_fields_all_some(ps);
    let dps = spec_encode_fields(ps)->Some_0;
    if ps.len() == 0 {
        assert(dps =~= Seq::<(Dyn, Dyn)>::empty());
        assert(ps =~= Seq::<(Seq<char>, TypedModel)>::empty());
    } else {
        lemma_round_trip(fs.first(), ps.first().1);
        assert forall|j: int|
            0 <= j < ps.drop_first().len() implies describes(
            fs.drop_first()[j],
            (#[trigger] ps.drop_first()[j]).1,
        ) && rt_ok(ps.drop_first()[j].1) by {
            assert(ps.drop_first()[j] == ps[j + 1]);
            assert(fs.drop_first()[j] == fs[j + 1]);
        }
        lemma_round_trip_fields(fs.drop_first(), ps.drop_first());
        assert forall|j: int|
            0 <= j < ps.drop_first().len() implies spec_encode(
            (#[trigger] ps.drop_first()[j]).1,
        ) is Some by {
            assert(ps.drop_first()[j] == ps[j + 1]);
        }
        lemma_encode_fields_all_some(ps.drop_first());
        let drest = spec_encode_fields(ps.drop_first())->Some_0;
        assert(dps.drop_first() =~= drest);
        assert(dps.first() == (Dyn::Str(ps.first().0), spec_encode(ps.first().1)->Some_0));
        assert(seq![(ps.first().0, ps.first().1)] + ps.drop_first() =~= ps);
    }
}

/// The round-trip law: for every typed value built from booleans, 64-bit
/// integers, 64-bit floats, text, bytes, optionals, sequences, records,
/// payload-free variants and extension wrappers, decoding the encoded
/// value under the value's own shape gives the value back. The shapes and
/// values this holds of are exactly [`describes`] and [`rt_ok`]: 32-bit
/// floats never decode, a negative extension tag never encodes, and a
/// present optional holding a nil-encoding value comes back absent.
pub proof fn lemma_round_trip(ty: TyDesc, t: TypedModel)
    requires
        describes(ty, t),
        rt_ok(t),
    ensures
        spec_encode(t) matches Some(d) && spec_decode(d, ty) == Ok::<TypedModel, DecodeErr>(t),
    decreases t, ty,
{
    match (ty, t) {
        (TyDesc::OptionOf(inner), TypedModel::Present(ti)) => {
            lemma_round_trip(*inner, *ti);
        },
        (TyDesc::SeqOf(elem), TypedModel::Sequence(s)) => {
            lemma_round_trip_elems(*elem, s);
        },
        (TyDesc::RecordOf(fs), TypedModel::Record(ps)) => {
            lemma_round_trip_fields(fs@, ps);
        },
        _ => {},
    }
}

/// One failing element makes the whole sequence encoding fail.
proof fn lemma_encode_seq_elem_none(s: Seq<TypedModel>, i: int)
    requires
        0 <= i < s.len(),
        spec_encode(s[i]) is None,
    ensures
        spec_encode_seq(s) is None,
    decreases s,
{
    if i == s.len() - 1 {
        assert(s.last() == s[i]);
    } else {
        assert(s.drop_last()[i] == s[i]);
        lemma_encode_seq_elem_none(s.drop_last(), i);
    }
}

/// One failing field value makes the whole field-list encoding fail.
proof fn lemma_encode_fields_elem_none(s: Seq<(Seq<char>, TypedModel)>, i: int)
    requires
        0 <= i < s.len(),
        spec_encode(s[i].1) is None,
    ensures
        spec_encode_fields(s) is None,
    decreases s,
{
    if i == s.len() - 1 {
        assert(s.last() == s[i]);
    } else {
        assert(s.drop_last()[i] == s[i]);
        lemma_encode_fields_elem_none(s.drop_last(), i);
    }
}

/// Converts a typed value into one dynamic value, driving the encoder's
/// callbacks exactly as the value's structure demands. Fails only on a
/// malformed extension wrapper: a negative tag, which the format's
/// unsigned read refuses.
#[verifier::loop_isolation(false)]
pub fn encode(t: &TypedValue) -> (r: Result<Value, Error>)
    ensures
        match r {
            Ok(v) => spec_encode(t.model()) == Some(v.model()) && v.wf(),
            Err(e) => spec_encode(t.model()) is None && (e matches Error::Format(m) && m@
                == "invalid ext struct"@),
        },
    decreases *t,
{
    let mut ser = Serializer::new();
    match t {
        TypedValue::Bool(b) => {
            let _ = ser.serialize_bool(*b);
            Ok(ser.into_output())
        },
        TypedValue::U64(v) => {
            let _ = ser.serialize_u64(*v);
            Ok(ser.into_output())
        },
        TypedValue::I64(v) => {
            let _ = ser.serialize_i64(*v);
            Ok(ser.into_output())
        },
        TypedValue::F32Bits(b) => {
            let _ = ser.serialize_f32_bits(*b);
            Ok(ser.into_output())
        },
        TypedValue::F64Bits(b) => {
            let _ = ser.serialize_f64_bits(*b);
            Ok(ser.into_output())
        },
        TypedValue::Text(s) => {
            let _ = ser.serialize_str(s.as_str());
            Ok(ser.into_output())
        },
        TypedValue::Bytes(b) => {
            let _ = ser.serialize_bytes(b.as_slice());
            Ok(ser.into_output())
        },
        TypedValue::Unit => {
            let _ = ser.serialize_unit();
            Ok(ser.into_output())
        },
        TypedValue::Absent => {
            let _ = ser.serialize_none();
            Ok(ser.into_output())
        },
        TypedValue::Present(inner) => encode(&**inner),
        TypedValue::Sequence(elems) => {
            let _ = ser.serialize_seq(Some(elems.len()));
            let mut i: usize = 0;
            while i < elems.len()
                invariant
                    i <= elems@.len(),
                    spec_encode_seq(model_typed_seq(elems@.take(i as int))) matches Some(ds)
                        && ser.output.model() == Dyn::Arr(ds),
                    ser.output.wf(),
                decreases elems@.len() - i,
            {
                proof {
                    assert(decreases_to!(*t => t->Sequence_0));
                    assert(decreases_to!(t->Sequence_0 => t->Sequence_0@));
                    assert(decreases_to!(t->Sequence_0@ => t->Sequence_0@[i as int]));
                    assert(decreases_to!(*t => elems@[i as int]));
                }
                let child = match encode(&elems[i]) {
                    Ok(v) => v,
                    Err(e) => {
                        proof {
                            lemma_model_typed_seq(elems@);
                            lemma_encode_seq_elem_none(model_typed_seq(elems@), i as int);
                        }
                        return Err(e);
                    },
                };
                let _ = ser.serialize_seq_element(child);
                proof {
                    assert(elems@.take(i + 1 as int).drop_last() =~= elems@.take(i as int));
                    assert(elems@.take(i + 1 as int).last() == elems@[i as int]);
                    let prev = model_typed_seq(elems@.take(i as int));
                    assert(model_typed_seq(elems@.take(i + 1 as int)) == prev.push(
                        elems@[i as int].model(),
                    ));
                    assert(prev.push(elems@[i as int].model()).drop_last() =~= prev);
                }
                i = i + 1;
            }
            proof {
                assert(elems@.take(elems@.len() as int) =~= elems@);
            }
            Ok(ser.into_output())
        },
        TypedValue::Record(fields) => {
            let _ = ser.serialize_map(Some(fields.len()));
            let mut i: usize = 0;
            while i < fields.len()
                invariant
                    i <= fields@.len(),
                    spec_encode_fields(model_typed_fields(fields@.take(i as int))) matches Some(
                        ps,
                    ) && ser.output.model() == Dyn::Dict(ps),
                    ser.output.wf(),
                decreases fields@.len() - i,
            {
                proof {
                    assert(decreases_to!(*t => t->Record_0));
                    assert(decreases_to!(t->Record_0 => t->Record_0@));
                    assert(decreases_to!(t->Record_0@ => t->Record_0@[i as int]));
                    assert(decreases_to!(*t => fields@[i as int].1));
                }
                let child = match encode(&fields[i].1) {
                    Ok(v) => v,
                    Err(e) => {
                        proof {
                            lemma_model_typed_fields(fields@);
                            lemma_encode_fields_elem_none(model_typed_fields(fields@), i as int);
                        }
                        return Err(e);
                    },
                };
                let _ = ser.serialize_struct_field(fields[i].0.as_str(), child);
                proof {
                    assert(fields@.take(i + 1 as int).drop_last() =~= fields@.take(i as int));
                    assert(fields@.take(i + 1 as int).last() == fields@[i as int]);
                    let prev = model_typed_fields(fields@.take(i as int));
                    assert(model_typed_fields(fields@.take(i + 1 as int)) == prev.push(
                        (fields@[i as int].0@, fields@[i as int].1.model()),
                    ));
                    assert(prev.push((fields@[i as int].0@, fields@[i as int].1.model())).drop_last()
                        =~= prev);
                }
                i = i + 1;
            }
            proof {
                assert(fields@.take(fields@.len() as int) =~= fields@);
            }
            Ok(ser.into_output())
        },
        TypedValue::UnitVariant(v) => {
            let _ = ser.serialize_unit_variant("", 0, v.as_str());
            Ok(ser.into_output())
        },
        TypedValue::NewtypeVariant(n, v, inner) => {
            let child = match encode(&**inner) {
                Ok(c) => c,
                Err(e) => {
                    return Err(e);
                },
            };
            let _ = ser.serialize_newtype_variant(n.as_str(), 0, v.as_str(), child);
            Ok(ser.into_output())
        },
        TypedValue::TupleVariant(n, v, elems) => {
            let _ = ser.serialize_tuple_variant(n.as_str(), 0, v.as_str(), elems.len());
            let mut i: usize = 0;
            while i < elems.len()
                invariant
                    i <= elems@.len(),
                    spec_encode_seq(model_typed_seq(elems@.take(i as int))) matches Some(ds)
                        && ser.output.model() == Dyn::Arr(
                        seq![Dyn::Str(n@), Dyn::Str(v@)] + ds,
                    ),
                    ser.output.wf(),
                decreases elems@.len() - i,
            {
                proof {
                    assert(decreases_to!(*t => t->TupleVariant_2));
                    assert(decreases_to!(t->TupleVariant_2 => t->TupleVariant_2@));
                    assert(decreases_to!(t->TupleVariant_2@ => t->TupleVariant_2@[i as int]));
                    assert(decreases_to!(*t => elems@[i as int]));
                }
                let child = match encode(&elems[i]) {
                    Ok(c) => c,
                    Err(e) => {
                        proof {
                            lemma_model_typed_seq(elems@);
                            lemma_encode_seq_elem_none(model_typed_seq(elems@), i as int);
                        }
                        return Err(e);
                    },
                };
                let _ = ser.serialize_seq_element(child);
                proof {
                    assert(elems@.take(i + 1 as int).drop_last() =~= elems@.take(i as int));
                    assert(elems@.take(i + 1 as int).last() == elems@[i as int]);
                    let prev = model_typed_seq(elems@.take(i as int));
                    assert(model_typed_seq(elems@.take(i + 1 as int)) == prev.push(
                        elems@[i as int].model(),
                    ));
                    assert(prev.push(elems@[i as int].model()).drop_last() =~= prev);
                    let dsp = spec_encode_seq(prev)->Some_0;
                    assert((seq![Dyn::Str(n@), Dyn::Str(v@)] + dsp).push(child.model())
                        =~= seq![Dyn::Str(n@), Dyn::Str(v@)] + dsp.push(child.model()));
                }
                i = i + 1;
            }
            proof {
                assert(elems@.take(elems@.len() as int) =~= elems@);
            }
            Ok(ser.into_output())
        },
        TypedValue::StructVariant(n, v, fields) => {
            let _ = ser.serialize_struct_variant(n.as_str(), 0, v.as_str(), fields.len());
            let mut i: usize = 0;
            while i < fields.len()
                invariant
                    i <= fields@.len(),
                    spec_encode_fields(model_typed_fields(fields@.take(i as int))) matches Some(
                        ps,
                    ) && ser.output.model() == Dyn::Arr(
                        seq![Dyn::Str(n@), Dyn::Str(v@), Dyn::Dict(ps)],
                    ),
                    ser.output.wf(),
                decreases fields@.len() - i,
            {
                proof {
                    assert(decreases_to!(*t => t->StructVariant_2));
                    assert(decreases_to!(t->StructVariant_2 => t->StructVariant_2@));
                    assert(decreases_to!(t->StructVariant_2@ => t->StructVariant_2@[i as int]));
                    assert(decreases_to!(*t => fields@[i as int].1));
                    crate::value::lemma_model_seq(ser.output->Arr_0@);
                }
                let child = match encode(&fields[i].1) {
                    Ok(c) => c,
                    Err(e) => {
                        proof {
                            lemma_model_typed_fields(fields@);
                            lemma_encode_fields_elem_none(model_typed_fields(fields@), i as int);
                        }
                        return Err(e);
                    },
                };
                let ghost prev_ps = spec_encode_fields(
                    model_typed_fields(fields@.take(i as int)),
                )->Some_0;
                let _ = ser.serialize_struct_variant_field(fields[i].0.as_str(), child);
                proof {
                    assert(fields@.take(i + 1 as int).drop_last() =~= fields@.take(i as int));
                    assert(fields@.take(i + 1 as int).last() == fields@[i as int]);
                    let prev = model_typed_fields(fields@.take(i as int));
                    assert(model_typed_fields(fields@.take(i + 1 as int)) == prev.push(
                        (fields@[i as int].0@, fields@[i as int].1.model()),
                    ));
                    assert(prev.push((fields@[i as int].0@, fields@[i as int].1.model())).drop_last()
                        =~= prev);
                    let s0 = seq![Dyn::Str(n@), Dyn::Str(v@), Dyn::Dict(prev_ps)];
                    let newps = prev_ps.push((Dyn::Str(fields@[i as int].0@), child.model()));
                    assert(s0.last() == Dyn::Dict(prev_ps));
                    assert(s0.update(s0.len() - 1, Dyn::Dict(newps)) =~= seq![
                        Dyn::Str(n@),
                        Dyn::Str(v@),
                        Dyn::Dict(newps),
                    ]);
                }
                i = i + 1;
            }
            proof {
                assert(fields@.take(fields@.len() as int) =~= fields@);
            }
            Ok(ser.into_output())
        },
        TypedValue::ExtWrapper(tag, data) => {
            let mut tupser = Serializer::new();
            let _ = tupser.serialize_tuple(2);
            let mut tagser = Serializer::new();
            let _ = tagser.serialize_i8(*tag);
            let _ = tupser.serialize_seq_element(tagser.into_output());
            let mut datser = Serializer::new();
            let _ = datser.serialize_bytes(data.as_slice());
            let _ = tupser.serialize_seq_element(datser.into_output());
            let inner = tupser.into_output();
            proof {
                assert(inner.model() == Dyn::Arr(
                    Seq::empty().push(Dyn::Int(*tag as int)).push(Dyn::Bin(data@)),
                ));
                assert(Seq::empty().push(Dyn::Int(*tag as int)).push(Dyn::Bin(data@)) =~= seq![
                    Dyn::Int(*tag as int),
                    Dyn::Bin(data@),
                ]);
            }
            match ser.serialize_newtype_struct(crate::MSGPACK_EXT_STRUCT_NAME, inner) {
                Ok(_) => Ok(ser.into_output()),
                Err(e) => Err(e),
            }
        },
    }
}

/// The decode failure kind an error value stands for.
pub open spec fn err_kind(e: Error) -> DecodeErr {
    match e {
        Error::TypeError(_) => DecodeErr::Shape,
        Error::Format(_) => DecodeErr::Malformed,
        Error::UnsupportedType => DecodeErr::Unsupported,
    }
}

/// The first failing element decides the whole sequence decode.
proof fn lemma_decode_elems_first_err(s: Seq<Dyn>, ty: TyDesc, i: int)
    requires
        0 <= i < s.len(),
        spec_decode_elems(s.take(i), ty) is Ok,
        spec_decode(s[i], ty) is Err,
    ensures
        spec_decode_elems(s, ty) == Err::<Seq<TypedModel>, DecodeErr>(
            spec_decode(s[i], ty)->Err_0,
        ),
    decreases s,
{
    if i == s.len() - 1 {
        assert(s.drop_last() =~= s.take(i));
    } else {
        assert(s.drop_last()[i] == s[i]);
        assert(s.drop_last().take(i) =~= s.take(i));
        lemma_decode_elems_first_err(s.drop_last(), ty, i);
    }
}

/// Reconstructs a typed value from a borrowed dynamic value, driving the
/// decoder by the requested shape and recursing into child values for
/// containers. The error, where one comes, is the first failure in
/// traversal order.
#[verifier::loop_isolation(false)]
pub fn decode(v: &Value, ty: &TyDesc) -> (r: Result<TypedValue, Error>)
    ensures
        match r {
            Ok(t) => spec_decode(v.model(), *ty) == Ok::<TypedModel, DecodeErr>(t.model()),
            Err(e) => spec_decode(v.model(), *ty) == Err::<TypedModel, DecodeErr>(err_kind(e)),
        },
    decreases *v, *ty,
{
    let d = Deserializer::from_value(v);
    match ty {
        TyDesc::Bool => match d.deserialize_bool() {
            Ok(b) => Ok(TypedValue::Bool(b)),
            Err(e) => Err(e),
        },
        TyDesc::U8 => match d.deserialize_u8() {
            Ok(x) => Ok(TypedValue::U64(x as u64)),
            Err(e) => Err(e),
        },
        TyDesc::U16 => match d.deserialize_u16() {
            Ok(x) => Ok(TypedValue::U64(x as u64)),
            Err(e) => Err(e),
        },
        TyDesc::U32 => match d.deserialize_u32() {
            Ok(x) => Ok(TypedValue::U64(x as u64)),
            Err(e) => Err(e),
        },
        TyDesc::U64 => match d.deserialize_u64() {
            Ok(x) => Ok(TypedValue::U64(x)),
            Err(e) => Err(e),
        },
        TyDesc::I8 => match d.deserialize_i8() {
            Ok(x) => Ok(TypedValue::I64(x as i64)),
            Err(e) => Err(e),
        },
        TyDesc::I16 => match d.deserialize_i16() {
            Ok(x) => Ok(TypedValue::I64(x as i64)),
            Err(e) => Err(e),
        },
        TyDesc::I32 => match d.deserialize_i32() {
            Ok(x) => Ok(TypedValue::I64(x as i64)),
            Err(e) => Err(e),
        },
        TyDesc::I64 => match d.deserialize_i64() {
            Ok(x) => Ok(TypedValue::I64(x)),
            Err(e) => Err(e),
        },
        TyDesc::F32 => match d.deserialize_f32() {
            Ok(_) => unreached(),
            Err(e) => Err(e),
        },
        TyDesc::F64 => match d.deserialize_f64() {
            Ok(WideFloat::FromF64(bits)) => Ok(TypedValue::F64Bits(bits)),
            Ok(_) => Err(Error::UnsupportedType),
            Err(e) => Err(e),
        },
        TyDesc::Char => match d.deserialize_char() {
            Ok(_) => unreached(),
            Err(e) => Err(e),
        },
        TyDesc::Text => match d.deserialize_str() {
            Ok(s) => Ok(TypedValue::Text(s.to_owned())),
            Err(e) => Err(e),
        },
        TyDesc::Bytes => match d.deserialize_bytes() {
            Ok(b) => Ok(TypedValue::Bytes(vstd::slice::slice_to_vec(b))),
            Err(e) => Err(e),
        },
        TyDesc::Unit => match d.deserialize_unit() {
            Ok(_) => Ok(TypedValue::Unit),
            Err(e) => Err(e),
        },
        TyDesc::OptionOf(inner) => match d.deserialize_option() {
            None => Ok(TypedValue::Absent),
            Some(iv) => {
                proof {
                    assert(decreases_to!(*ty => ty->OptionOf_0));
                }
                match decode(iv, inner) {
                    Ok(t) => Ok(TypedValue::Present(Box::new(t))),
                    Err(e) => Err(e),
                }
            },
        },
        TyDesc::SeqOf(elem) => match d.deserialize_seq() {
            Err(e) => Err(e),
            Ok(SeqShape::Bytes(_)) => Err(Error::TypeError("expected sequence".to_owned())),
            Ok(SeqShape::Ext(_)) => Err(Error::TypeError("expected sequence".to_owned())),
            Ok(SeqShape::Elements(mut acc)) => {
                let arr = match v.as_array() {
                    Some(a) => a,
                    None => unreached(),
                };
                let ghost s = crate::value::model_seq(arr@);
                proof {
                    crate::value::lemma_model_seq(arr@);
                }
                let mut out: Vec<TypedValue> = Vec::new();
                let mut i: usize = 0;
                proof {
                    assert(s.take(0) =~= Seq::<Dyn>::empty());
                }
                while i < arr.len()
                    invariant
                        acc.de.input == v,
                        acc.offset == i,
                        i <= arr@.len(),
                        out@.len() == i,
                        spec_decode_elems(s.take(i as int), **elem) == Ok::<
                            Seq<TypedModel>,
                            DecodeErr,
                        >(model_typed_seq(out@)),
                    decreases arr@.len() - i,
                {
                    let ev = match acc.next_element() {
                        Ok(Some(x)) => x,
                        _ => unreached(),
                    };
                    proof {
                        assert(decreases_to!(*v => v->Arr_0));
                        assert(decreases_to!(v->Arr_0 => v->Arr_0@));
                        assert(decreases_to!(v->Arr_0@ => v->Arr_0@[i as int]));
                        assert(decreases_to!(*ty => ty->SeqOf_0));
                    }
                    let child = match decode(ev, elem) {
                        Ok(c) => c,
                        Err(e) => {
                            proof {
                                assert(s[i as int] == arr@[i as int].model());
                                lemma_decode_elems_first_err(s, **elem, i as int);
                            }
                            return Err(e);
                        },
                    };
                    let ghost outprev = out@;
                    out.push(child);
                    proof {
                        assert(s[i as int] == arr@[i as int].model());
                        assert(s.take(i + 1 as int).drop_last() =~= s.take(i as int));
                        assert(s.take(i + 1 as int).last() == s[i as int]);
                        assert(out@.drop_last() =~= outprev);
                        assert(model_typed_seq(out@) == model_typed_seq(outprev).push(
                            child.model(),
                        ));
                    }
                    i = i + 1;
                }
                proof {
                    assert(s.take(s.len() as int) =~= s);
                }
                Ok(TypedValue::Sequence(out))
            },
        },
        TyDesc::RecordOf(fds) => match d.deserialize_map() {
            Err(e) => Err(e),
            Ok(mut acc) => {
                let ps = match v.as_map() {
                    Some(m) => m,
                    None => unreached(),
                };
                let ghost psm = crate::value::model_pairs(ps@);
                proof {
                    crate::value::lemma_model_pairs(ps@);
                    assert(psm.skip(0) =~= psm);
                    assert(fds@.skip(0) =~= fds@);
                }
                let mut out: Vec<(String, TypedValue)> = Vec::new();
                let mut i: usize = 0;
                while i < fds.len()
                    invariant
                        acc.de.input == v,
                        acc.offset == i,
                        i <= fds@.len(),
                        i <= ps@.len(),
                        out@.len() == i,
                        spec_decode_fields(psm, fds@) == (match spec_decode_fields(
                            psm.skip(i as int),
                            fds@.skip(i as int),
                        ) {
                            Ok(rest) => Ok::<_, DecodeErr>(model_typed_fields(out@) + rest),
                            Err(e) => Err(e),
                        }),
                    decreases fds@.len() - i,
                {
                    let kv = match acc.next_key() {
                        Ok(Some(x)) => x,
                        Ok(None) => {
                            proof {
                                assert(psm.skip(i as int).len() == 0);
                            }
                            return Err(Error::Format("missing field".to_owned()));
                        },
                        Err(_) => unreached(),
                    };
                    proof {
                        assert(psm.skip(i as int).first() == psm[i as int]);
                        assert(fds@.skip(i as int).first() == fds@[i as int]);
                    }
                    let kd = Deserializer::from_value(kv);
                    let key = match kd.deserialize_str() {
                        Ok(ks) => ks,
                        Err(e) => {
                            return Err(e);
                        },
                    };
                    let vv = match acc.next_value() {
                        Ok(x) => x,
                        Err(_) => unreached(),
                    };
                    proof {
                        assert(decreases_to!(*v => v->Dict_0));
                        assert(decreases_to!(v->Dict_0 => v->Dict_0@));
                        assert(decreases_to!(v->Dict_0@ => v->Dict_0@[i as int]));
                        assert(decreases_to!(v->Dict_0@[i as int] => v->Dict_0@[i as int].1));
                    }
                    let child = match decode(vv, &fds[i]) {
                        Ok(c) => c,
                        Err(e) => {
                            return Err(e);
                        },
                    };
                    let ghost outold = out@;
                    out.push((key.to_owned(), child));
                    proof {
                        assert(psm.skip(i as int).drop_first() =~= psm.skip(i + 1 as int));
                        assert(fds@.skip(i as int).drop_first() =~= fds@.skip(i + 1 as int));
                        assert(psm[i as int].0 == Dyn::Str(key@));
                        assert(psm[i as int].1 == ps@[i as int].1.model());
                        let pair = (key@, child.model());
                        assert(out@.drop_last() =~= outold);
                        assert(model_typed_fields(out@) == model_typed_fields(outold).push(pair));
                        let restr = spec_decode_fields(
                            psm.skip(i + 1 as int),
                            fds@.skip(i + 1 as int),
                        );
                        if restr is Ok {
                            let rest = restr->Ok_0;
                            assert(model_typed_fields(outold) + (seq![pair] + rest)
                                =~= model_typed_fields(outold).push(pair) + rest);
                        }
                    }
                    i = i + 1;
                }
                match acc.next_key() {
                    Ok(None) => {
                        proof {
                            assert(psm.skip(i as int).len() == 0);
                            assert(fds@.skip(i as int).len() == 0);
                            assert(model_typed_fields(out@) + Seq::<
                                (Seq<char>, TypedModel),
                            >::empty() =~= model_typed_fields(out@));
                        }
                        Ok(TypedValue::Record(out))
                    },
                    Ok(Some(_)) => {
                        proof {
                            assert(psm.skip(i as int).len() > 0);
                            assert(fds@.skip(i as int).len() == 0);
                        }
                        Err(Error::Format("unexpected entries".to_owned()))
                    },
                    Err(_) => unreached(),
                }
            },
        },
        TyDesc::UnitEnum => {
            let acc = d.deserialize_enum("");
            match acc.variant() {
                Ok(name) => {
                    let _ = acc.unit_variant();
                    Ok(TypedValue::UnitVariant(name.to_owned()))
                },
                Err(e) => Err(e),
            }
        },
        TyDesc::ExtBlob => match d.deserialize_seq() {
            Err(e) => Err(e),
            Ok(SeqShape::Bytes(_)) => Err(Error::TypeError("expected ext".to_owned())),
            Ok(SeqShape::Ext(mut ext)) => {
                let _ = ext.next_part();
                let tag = ext.tag_value();
                let _ = ext.next_part();
                let data = vstd::slice::slice_to_vec(ext.data_value());
                let _ = ext.next_part();
                Ok(TypedValue::ExtWrapper(tag, data))
            },
            Ok(SeqShape::Elements(mut acc)) => {
                proof {
                    crate::value::lemma_model_seq(v->Arr_0@);
                }
                let e0 = match acc.next_element() {
                    Ok(Some(x)) => x,
                    Ok(None) => {
                        return Err(Error::Format("invalid ext struct".to_owned()));
                    },
                    Err(_) => unreached(),
                };
                let d0 = Deserializer::from_value(e0);
                let tag = match d0.deserialize_i8() {
                    Ok(x) => x,
                    Err(e) => {
                        return Err(e);
                    },
                };
                let e1 = match acc.next_element() {
                    Ok(Some(x)) => x,
                    Ok(None) => {
                        return Err(Error::Format("invalid ext struct".to_owned()));
                    },
                    Err(_) => unreached(),
                };
                let d1 = Deserializer::from_value(e1);
                let data = match d1.deserialize_bytes() {
                    Ok(b) => vstd::slice::slice_to_vec(b),
                    Err(e) => {
                        return Err(e);
                    },
                };
                Ok(TypedValue::ExtWrapper(tag, data))
            },
        },
    }
}

} // verus!


