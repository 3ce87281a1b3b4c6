//! The encoder: builds one dynamic [`Value`] from the callbacks that a typed
//! value's structure drives, one method per protocol primitive.
//!
//! Each recursive encode call owns a fresh serializer; the caller splices the
//! finished child value into its own container through the element- and
//! field-appending methods, which take the child's output as an argument.

use vstd::prelude::*;

use crate::error::Error;
use crate::value::{model_pairs, model_seq, Dyn, Integer, Value};

verus! {

/// What the extension-wrapper convention makes of an encoded inner value:
/// an array of exactly a non-negative 8-bit tag and a byte blob turns into
/// the corresponding `Ext`; every other shape is malformed.
pub open spec fn ext_from_model(m: Dyn) -> Option<Dyn> {
    match m {
        Dyn::Arr(s) => {
            if s.len() == 2 {
                match (s[0], s[1]) {
                    (Dyn::Int(tag), Dyn::Bin(data)) => {
                        if 0 <= tag <= 127 {
                            Some(Dyn::Ext(tag as i8, data))
                        } else {
                            None
                        }
                    },
                    _ => None,
                }
            } else {
                None
            }
        },
        _ => None,
    }
}

/// Relies on `str`'s `PartialEq`: true exactly when the two strings hold the
/// same characters.
#[verifier::external_body]
fn str_eq(a: &str, b: &str) -> (r: bool)
    ensures
        r == (a@ == b@),
{
    a == b
}

/// Relies on `char`'s `ToString`: the result is the one-character string
/// holding exactly `c`.
#[verifier::external_body]
fn char_to_string(c: char) -> (r: String)
    ensures
        r@ == seq![c],
{
    c.to_string()
}

/// The encoder's whole state: the single output slot under construction.
/// Scalars overwrite it once; containers initialize it empty and grow it by
/// the appending methods below.
pub struct Serializer {
    /// The dynamic value built so far.
    pub output: Value,
}

impl Serializer {
    /// A fresh encoder, its slot still nil.
    pub fn new() -> (r: Serializer)
        ensures
            r.output == Value::Nil,
    {
        Serializer { output: Value::Nil }
    }

    /// Gives up the finished value.
    pub fn into_output(self) -> (r: Value)
        ensures
            r == self.output,
    {
        self.output
    }

    pub fn serialize_bool(&mut self, v: bool) -> (r: Result<(), Error>)
        ensures
            r == Ok::<(), Error>(()),
            final(self).output.model() == Dyn::Bool(v),
            final(self).output.wf(),
    {
        self.output = Value::Bool(v);
        Ok(())
    }

    pub fn serialize_i8(&mut self, v: i8) -> (r: Result<(), Error>)
        ensures
            r == Ok::<(), Error>(()),
            final(self).output.model() == Dyn::Int(v as int),
            final(self).output.wf(),
    {
        self.serialize_i64(v as i64)
    }

    pub fn serialize_i16(&mut self, v: i16) -> (r: Result<(), Error>)
        ensures
            r == Ok::<(), Error>(()),
            final(self).output.model() == Dyn::Int(v as int),
            final(self).output.wf(),
    {
        self.serialize_i64(v as i64)
    }

    pub fn serialize_i32(&mut self, v: i32) -> (r: Result<(), Error>)
        ensures
            r == Ok::<(), Error>(()),
            final(self).output.model() == Dyn::Int(v as int),
            final(self).output.wf(),
    {
        self.serialize_i64(v as i64)
    }

    /// Every signed width widens to a 64-bit integer.
    pub fn serialize_i64(&mut self, v: i64) -> (r: Result<(), Error>)
        ensures
            r == Ok::<(), Error>(()),
            final(self).output.model() == Dyn::Int(v as int),
            final(self).output.wf(),
    {
        self.output = Value::Int(Integer::from_i64(v));
        Ok(())
    }

    pub fn serialize_u8(&mut self, v: u8) -> (r: Result<(), Error>)
        ensures
            r == Ok::<(), Error>(()),
            final(self).output.model() == Dyn::Int(v as int),
            final(self).output.wf(),
    {
        self.serialize_u64(v as u64)
    }

    pub fn serialize_u16(&mut self, v: u16) -> (r: Result<(), Error>)
        ensures
            r == Ok::<(), Error>(()),
            final(self).output.model() == Dyn::Int(v as int),
            final(self).output.wf(),
    {
        self.serialize_u64(v as u64)
    }

    pub fn serialize_u32(&mut self, v: u32) -> (r: Result<(), Error>)
        ensures
            r == Ok::<(), Error>(()),
            final(self).output.model() == Dyn::Int(v as int),
            final(self).output.wf(),
    {
        self.serialize_u64(v as u64)
    }

    /// Every unsigned width widens to a 64-bit integer.
    pub fn serialize_u64(&mut self, v: u64) -> (r: Result<(), Error>)
        ensures
            r == Ok::<(), Error>(()),
            final(self).output.model() == Dyn::Int(v as int),
            final(self).output.wf(),
    {
        self.output = Value::Int(Integer::from_u64(v));
        Ok(())
    }

    /// A 32-bit float, handed over as its IEEE 754 bit pattern; kept
    /// distinct from the 64-bit kind, never promoted.
    pub fn serialize_f32_bits(&mut self, bits: u32) -> (r: Result<(), Error>)
        ensures
            r == Ok::<(), Error>(()),
            final(self).output.model() == Dyn::F32(bits),
            final(self).output.wf(),
    {
        self.output = Value::F32(bits);
        Ok(())
    }

    /// A 64-bit float, handed over as its IEEE 754 bit pattern.
    pub fn serialize_f64_bits(&mut self, bits: u64) -> (r: Result<(), Error>)
        ensures
            r == Ok::<(), Error>(()),
            final(self).output.model() == Dyn::F64(bits),
            final(self).output.wf(),
    {
        self.output = Value::F64(bits);
        Ok(())
    }

    /// A character becomes a one-character string.
    pub fn serialize_char(&mut self, v: char) -> (r: Result<(), Error>)
        ensures
            r == Ok::<(), Error>(()),
            final(self).output.model() == Dyn::Str(seq![v]),
            final(self).output.wf(),
    {
        self.output = Value::Str(char_to_string(v));
        Ok(())
    }

    pub fn serialize_str(&mut self, v: &str) -> (r: Result<(), Error>)
        ensures
            r == Ok::<(), Error>(()),
            final(self).output.model() == Dyn::Str(v@),
            final(self).output.wf(),
    {
        self.output = Value::Str(v.to_owned());
        Ok(())
    }

    pub fn serialize_bytes(&mut self, v: &[u8]) -> (r: Result<(), Error>)
        ensures
            r == Ok::<(), Error>(()),
            final(self).output.model() == Dyn::Bin(v@),
            final(self).output.wf(),
    {
        self.output = Value::Bin(vstd::slice::slice_to_vec(v));
        Ok(())
    }

    /// The anonymous empty value maps to nil.
    pub fn serialize_unit(&mut self) -> (r: Result<(), Error>)
        ensures
            r == Ok::<(), Error>(()),
            final(self).output.model() == Dyn::Nil,
            final(self).output.wf(),
    {
        self.output = Value::Nil;
        Ok(())
    }

    /// A named empty value carries no data either: nil again.
    pub fn serialize_unit_struct(&mut self, _name: &str) -> (r: Result<(), Error>)
        ensures
            r == Ok::<(), Error>(()),
            final(self).output.model() == Dyn::Nil,
            final(self).output.wf(),
    {
        self.serialize_unit()
    }

    /// An absent optional maps to nil; a present one encodes as its content.
    pub fn serialize_none(&mut self) -> (r: Result<(), Error>)
        ensures
            r == Ok::<(), Error>(()),
            final(self).output.model() == Dyn::Nil,
            final(self).output.wf(),
    {
        self.serialize_unit()
    }

    /// A payload-free variant becomes the bare variant name.
    pub fn serialize_unit_variant(
        &mut self,
        _name: &str,
        _variant_index: u32,
        variant: &str,
    ) -> (r: Result<(), Error>)
        ensures
            r == Ok::<(), Error>(()),
            final(self).output.model() == Dyn::Str(variant@),
            final(self).output.wf(),
    {
        self.serialize_str(variant)
    }

    /// A named wrapper passes its already-encoded content through unchanged,
    /// unless the name is the extension marker: then the content must be an
    /// array of exactly a non-negative 8-bit tag and a byte blob, which
    /// collapses into the corresponding `Ext`; any other shape is a
    /// malformed extension wrapper.
    pub fn serialize_newtype_struct(&mut self, name: &str, encoded: Value) -> (r: Result<
        (),
        Error,
    >)
        requires
            encoded.wf(),
        ensures
            name@ != crate::MSGPACK_EXT_STRUCT_NAME@ ==> r == Ok::<(), Error>(())
                && final(self).output == encoded,
            name@ == crate::MSGPACK_EXT_STRUCT_NAME@ ==> match ext_from_model(encoded.model()) {
                Some(e) => r == Ok::<(), Error>(()) && final(self).output.model() == e
                    && final(self).output.wf(),
                None => (r matches Err(Error::Format(m)) && m@ == "invalid ext struct"@)
                    && *final(self) == *old(self),
            },
    {
        if str_eq(name, crate::MSGPACK_EXT_STRUCT_NAME) {
            match encoded {
                Value::Arr(mut vec) => {
                    if vec.len() == 2 {
                        let ghost orig = vec@;
                        proof {
                            crate::value::lemma_model_seq(orig);
                            assert(model_seq(orig)[0] == orig[0].model());
                            assert(model_seq(orig)[1] == orig[1].model());
                        }
                        let data_elem = vec.pop().unwrap();
                        let tag_elem = vec.pop().unwrap();
                        proof {
                            assert(data_elem == orig[1]);
                            assert(tag_elem == orig[0]);
                        }
                        match (tag_elem.as_u64(), data_elem) {
                            (Some(tag), Value::Bin(data)) => {
                                if tag <= 127 {
                                    self.output = Value::Ext(tag as i8, data);
                                    Ok(())
                                } else {
                                    Err(Error::Format("invalid ext struct".to_owned()))
                                }
                            },
                            _ => Err(Error::Format("invalid ext struct".to_owned())),
                        }
                    } else {
                        proof {
                            crate::value::lemma_model_seq(vec@);
                        }
                        Err(Error::Format("invalid ext struct".to_owned()))
                    }
                },
                _ => Err(Error::Format("invalid ext struct".to_owned())),
            }
        } else {
            self.output = encoded;
            Ok(())
        }
    }

    /// A variant with one unnamed payload becomes
    /// `[type name, variant name, payload]`.
    pub fn serialize_newtype_variant(
        &mut self,
        name: &str,
        _variant_index: u32,
        variant: &str,
        encoded: Value,
    ) -> (r: Result<(), Error>)
        requires
            encoded.wf(),
        ensures
            r == Ok::<(), Error>(()),
            final(self).output.model() == Dyn::Arr(
                seq![Dyn::Str(name@), Dyn::Str(variant@), encoded.model()],
            ),
            final(self).output.wf(),
    {
        let mut vec: Vec<Value> = Vec::new();
        vec.push(Value::Str(name.to_owned()));
        vec.push(Value::Str(variant.to_owned()));
        vec.push(encoded);
        proof {
            crate::value::lemma_model_seq(vec@);
            assert(model_seq(vec@) =~= seq![
                Dyn::Str(name@),
                Dyn::Str(variant@),
                encoded.model(),
            ]);
            assert forall|i: int| 0 <= i < vec@.len() implies vec@[i].wf() by {}
        }
        self.output = Value::Arr(vec);
        Ok(())
    }

    /// Opens a sequence: the slot becomes an empty array, grown by
    /// [`Serializer::serialize_seq_element`].
    pub fn serialize_seq(&mut self, _len: Option<usize>) -> (r: Result<(), Error>)
        ensures
            r == Ok::<(), Error>(()),
            final(self).output.model() == Dyn::Arr(Seq::empty()),
            final(self).output.wf(),
    {
        proof {
            crate::value::lemma_model_seq(Seq::empty());
        }
        self.output = Value::Arr(Vec::new());
        Ok(())
    }

    /// Tuples look just like sequences.
    pub fn serialize_tuple(&mut self, len: usize) -> (r: Result<(), Error>)
        ensures
            r == Ok::<(), Error>(()),
            final(self).output.model() == Dyn::Arr(Seq::empty()),
            final(self).output.wf(),
    {
        self.serialize_seq(Some(len))
    }

    /// Tuple structs look just like sequences.
    pub fn serialize_tuple_struct(&mut self, _name: &str, len: usize) -> (r: Result<(), Error>)
        ensures
            r == Ok::<(), Error>(()),
            final(self).output.model() == Dyn::Arr(Seq::empty()),
            final(self).output.wf(),
    {
        self.serialize_seq(Some(len))
    }

    /// A variant with an ordered payload list opens as
    /// `[type name, variant name]`, and the fields are appended one by one.
    pub fn serialize_tuple_variant(
        &mut self,
        name: &str,
        _variant_index: u32,
        variant: &str,
        _len: usize,
    ) -> (r: Result<(), Error>)
        ensures
            r == Ok::<(), Error>(()),
            final(self).output.model() == Dyn::Arr(seq![Dyn::Str(name@), Dyn::Str(variant@)]),
            final(self).output.wf(),
    {
        let mut vec: Vec<Value> = Vec::new();
        vec.push(Value::Str(name.to_owned()));
        vec.push(Value::Str(variant.to_owned()));
        proof {
            crate::value::lemma_model_seq(vec@);
            assert(model_seq(vec@) =~= seq![Dyn::Str(name@), Dyn::Str(variant@)]);
            assert forall|i: int| 0 <= i < vec@.len() implies vec@[i].wf() by {}
        }
        self.output = Value::Arr(vec);
        Ok(())
    }

    /// Opens a map: the slot becomes an empty entry list, grown by
    /// [`Serializer::serialize_map_key`] and [`Serializer::serialize_map_value`].
    pub fn serialize_map(&mut self, _len: Option<usize>) -> (r: Result<(), Error>)
        ensures
            r == Ok::<(), Error>(()),
            final(self).output.model() == Dyn::Dict(Seq::empty()),
            final(self).output.wf(),
    {
        proof {
            crate::value::lemma_model_pairs(Seq::empty());
        }
        self.output = Value::Dict(Vec::new());
        Ok(())
    }

    /// Structs look just like maps.
    pub fn serialize_struct(&mut self, _name: &str, len: usize) -> (r: Result<(), Error>)
        ensures
            r == Ok::<(), Error>(()),
            final(self).output.model() == Dyn::Dict(Seq::empty()),
            final(self).output.wf(),
    {
        self.serialize_map(Some(len))
    }

    /// A variant with named fields opens as
    /// `[type name, variant name, empty map]`; the fields are appended into
    /// the trailing map by [`Serializer::serialize_struct_variant_field`].
    pub fn serialize_struct_variant(
        &mut self,
        name: &str,
        _variant_index: u32,
        variant: &str,
        _len: usize,
    ) -> (r: Result<(), Error>)
        ensures
            r == Ok::<(), Error>(()),
            final(self).output.model() == Dyn::Arr(
                seq![Dyn::Str(name@), Dyn::Str(variant@), Dyn::Dict(Seq::empty())],
            ),
            final(self).output.wf(),
    {
        let mut vec: Vec<Value> = Vec::new();
        vec.push(Value::Str(name.to_owned()));
        vec.push(Value::Str(variant.to_owned()));
        vec.push(Value::Dict(Vec::new()));
        proof {
            crate::value::lemma_model_seq(vec@);
            crate::value::lemma_model_pairs(Seq::empty());
            assert(model_seq(vec@) =~= seq![
                Dyn::Str(name@),
                Dyn::Str(variant@),
                Dyn::Dict(Seq::empty()),
            ]);
            assert forall|i: int| 0 <= i < vec@.len() implies vec@[i].wf() by {}
        }
        self.output = Value::Arr(vec);
        Ok(())
    }

    /// Appends one independently encoded element to the open array.
    pub fn serialize_seq_element(&mut self, encoded: Value) -> (r: Result<(), Error>)
        requires
            old(self).output.wf(),
            encoded.wf(),
        ensures
            match old(self).output.model() {
                Dyn::Arr(s) => r == Ok::<(), Error>(()) && final(self).output.model() == Dyn::Arr(
                    s.push(encoded.model()),
                ) && final(self).output.wf(),
                _ => (r matches Err(Error::Format(m)) && m@ == "expected array"@) && *final(self)
                    == *old(self),
            },
    {
        let mut taken = Value::Nil;
        core::mem::swap(&mut self.output, &mut taken);
        match taken {
            Value::Arr(mut vec) => {
                let ghost orig = vec@;
                vec.push(encoded);
                proof {
                    assert(vec@.drop_last() =~= orig);
                    assert(model_seq(vec@) == model_seq(orig).push(encoded.model()));
                    assert forall|i: int| 0 <= i < vec@.len() implies vec@[i].wf() by {
                        if i < orig.len() {
                            assert(old(self).output->Arr_0@[i].wf());
                        }
                    }
                }
                self.output = Value::Arr(vec);
                Ok(())
            },
            other => {
                self.output = other;
                Err(Error::Format("expected array".to_owned()))
            },
        }
    }

    /// Appends one independently encoded key to the open map, its value
    /// still nil until [`Serializer::serialize_map_value`] fills it.
    pub fn serialize_map_key(&mut self, encoded: Value) -> (r: Result<(), Error>)
        requires
            old(self).output.wf(),
            encoded.wf(),
        ensures
            match old(self).output.model() {
                Dyn::Dict(s) => r == Ok::<(), Error>(()) && final(self).output.model()
                    == Dyn::Dict(s.push((encoded.model(), Dyn::Nil))) && final(self).output.wf(),
                _ => (r matches Err(Error::Format(m)) && m@ == "expected map"@) && *final(self)
                    == *old(self),
            },
    {
        let mut taken = Value::Nil;
        core::mem::swap(&mut self.output, &mut taken);
        match taken {
            Value::Dict(mut vec) => {
                let ghost orig = vec@;
                vec.push((encoded, Value::Nil));
                proof {
                    crate::value::lemma_model_pairs(orig);
                    crate::value::lemma_model_pairs(vec@);
                    assert(vec@.drop_last() =~= orig);
                    assert(model_pairs(vec@) =~= model_pairs(orig).push(
                        (encoded.model(), Dyn::Nil),
                    ));
                    assert forall|i: int|
                        0 <= i < vec@.len() implies vec@[i].0.wf() && vec@[i].1.wf() by {
                        if i < orig.len() {
                            assert(old(self).output->Dict_0@[i].0.wf());
                            assert(old(self).output->Dict_0@[i].1.wf());
                        }
                    }
                }
                self.output = Value::Dict(vec);
                Ok(())
            },
            other => {
                self.output = other;
                Err(Error::Format("expected map".to_owned()))
            },
        }
    }

    /// Fills the value of the most recently appended map entry. Driving it
    /// before any key has been appended is a driver bug, kept out by the
    /// precondition.
    pub fn serialize_map_value(&mut self, encoded: Value) -> (r: Result<(), Error>)
        requires
            old(self).output.wf(),
            encoded.wf(),
            old(self).output matches Value::Dict(ps) ==> ps@.len() > 0,
        ensures
            match old(self).output.model() {
                Dyn::Dict(s) => r == Ok::<(), Error>(()) && final(self).output.model()
                    == Dyn::Dict(s.update(s.len() - 1, (s[s.len() - 1].0, encoded.model())))
                    && final(self).output.wf(),
                _ => (r matches Err(Error::Format(m)) && m@ == "expected map"@) && *final(self)
                    == *old(self),
            },
    {
        let mut taken = Value::Nil;
        core::mem::swap(&mut self.output, &mut taken);
        match taken {
            Value::Dict(mut vec) => {
                let ghost orig = vec@;
                let last = vec.pop().unwrap();
                vec.push((last.0, encoded));
                proof {
                    crate::value::lemma_model_pairs(orig);
                    crate::value::lemma_model_pairs(vec@);
                    assert(vec@.drop_last() =~= orig.drop_last());
                    assert(model_pairs(vec@) =~= model_pairs(orig).update(
                        orig.len() - 1,
                        (model_pairs(orig)[orig.len() - 1].0, encoded.model()),
                    ));
                    assert forall|i: int|
                        0 <= i < vec@.len() implies vec@[i].0.wf() && vec@[i].1.wf() by {
                        if i < orig.len() - 1 {
                            assert(old(self).output->Dict_0@[i].0.wf());
                            assert(old(self).output->Dict_0@[i].1.wf());
                        } else {
                            assert(old(self).output->Dict_0@[i].0.wf());
                            assert(vec@[i] == (last.0, encoded));
                        }
                    }
                }
                self.output = Value::Dict(vec);
                Ok(())
            },
            other => {
                self.output = other;
                Err(Error::Format("expected map".to_owned()))
            },
        }
    }

    /// Appends one named field of a struct variant: pushes the pair into
    /// the map that stands last in the open array. Driving it while the
    /// array is empty is a driver bug, kept out by the precondition.
    pub fn serialize_struct_variant_field(&mut self, key: &str, encoded: Value) -> (r: Result<
        (),
        Error,
    >)
        requires
            old(self).output.wf(),
            encoded.wf(),
            old(self).output matches Value::Arr(vs) ==> vs@.len() > 0,
        ensures
            match old(self).output.model() {
                Dyn::Arr(s) => if s.len() > 0 && s.last() is Dict {
                    r == Ok::<(), Error>(()) && final(self).output.model() == Dyn::Arr(
                        s.update(
                            s.len() - 1,
                            Dyn::Dict(s.last()->Dict_0.push((Dyn::Str(key@), encoded.model()))),
                        ),
                    ) && final(self).output.wf()
                } else {
                    (r matches Err(Error::Format(m)) && m@ == "expected map"@)
                        && final(self).output.model() == old(self).output.model()
                        && final(self).output.wf()
                },
                _ => (r matches Err(Error::Format(m)) && m@ == "expected array"@) && *final(self)
                    == *old(self),
            },
    {
        let mut taken = Value::Nil;
        core::mem::swap(&mut self.output, &mut taken);
        match taken {
            Value::Arr(mut vec) => {
                let ghost orig = vec@;
                proof {
                    crate::value::lemma_model_seq(orig);
                }
                let last = vec.pop().unwrap();
                match last {
                    Value::Dict(mut m) => {
                        let ghost morig = m@;
                        m.push((Value::Str(key.to_owned()), encoded));
                        proof {
                            crate::value::lemma_model_pairs(morig);
                            crate::value::lemma_model_pairs(m@);
                            assert(m@.drop_last() =~= morig);
                            assert(model_pairs(m@) =~= model_pairs(morig).push(
                                (Dyn::Str(key@), encoded.model()),
                            ));
                        }
                        vec.push(Value::Dict(m));
                        proof {
                            crate::value::lemma_model_seq(vec@);
                            assert(model_seq(vec@) =~= model_seq(orig).update(
                                orig.len() - 1,
                                Dyn::Dict(model_pairs(morig).push((Dyn::Str(key@), encoded.model()))),
                            ));
                            assert forall|i: int| 0 <= i < vec@.len() implies vec@[i].wf() by {
                                if i < orig.len() - 1 {
                                    assert(old(self).output->Arr_0@[i].wf());
                                } else {
                                    assert(old(self).output->Arr_0@[i].wf());
                                    assert forall|j: int|
                                        0 <= j < m@.len() implies m@[j].0.wf() && m@[j].1.wf() by {
                                        if j < morig.len() {
                                            assert(morig[j] == m@[j]);
                                        }
                                    }
                                }
                            }
                        }
                        self.output = Value::Arr(vec);
                        Ok(())
                    },
                    other => {
                        vec.push(other);
                        proof {
                            assert(vec@ =~= orig);
                            crate::value::lemma_model_seq(vec@);
                            assert forall|i: int| 0 <= i < vec@.len() implies vec@[i].wf() by {
                                assert(old(self).output->Arr_0@[i].wf());
                            }
                        }
                        self.output = Value::Arr(vec);
                        Err(Error::Format("expected map".to_owned()))
                    },
                }
            },
            other => {
                self.output = other;
                Err(Error::Format("expected array".to_owned()))
            },
        }
    }

    /// Appends one named field to the open map: the name becomes the key,
    /// the independently encoded content the value.
    pub fn serialize_struct_field(&mut self, key: &str, encoded: Value) -> (r: Result<(), Error>)
        requires
            old(self).output.wf(),
            encoded.wf(),
        ensures
            match old(self).output.model() {
                Dyn::Dict(s) => r == Ok::<(), Error>(()) && final(self).output.model()
                    == Dyn::Dict(s.push((Dyn::Str(key@), encoded.model())))
                    && final(self).output.wf(),
                _ => (r matches Err(Error::Format(m)) && m@ == "expected map"@) && *final(self)
                    == *old(self),
            },
    {
        let mut taken = Value::Nil;
        core::mem::swap(&mut self.output, &mut taken);
        match taken {
            Value::Dict(mut vec) => {
                let ghost orig = vec@;
                vec.push((Value::Str(key.to_owned()), encoded));
                proof {
                    crate::value::lemma_model_pairs(orig);
                    crate::value::lemma_model_pairs(vec@);
                    assert(vec@.drop_last() =~= orig);
                    assert(model_pairs(vec@) =~= model_pairs(orig).push(
                        (Dyn::Str(key@), encoded.model()),
                    ));
                    assert forall|i: int|
                        0 <= i < vec@.len() implies vec@[i].0.wf() && vec@[i].1.wf() by {
                        if i < orig.len() {
                            assert(old(self).output->Dict_0@[i].0.wf());
                            assert(old(self).output->Dict_0@[i].1.wf());
                        }
                    }
                }
                self.output = Value::Dict(vec);
                Ok(())
            },
            other => {
                self.output = other;
                Err(Error::Format("expected map".to_owned()))
            },
        }
    }
}

} // verus!
