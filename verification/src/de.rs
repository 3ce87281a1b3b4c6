//! The decoder: reads a borrowed dynamic [`Value`] back in the shape a
//! target type requests, one method per protocol primitive.
//!
//! Text and byte reads borrow straight from the source tree; composite reads
//! go through transient cursor objects ([`ArrayAccess`], [`ValueMapAccess`],
//! [`ExtDeserializer`]) that expose one element or entry at a time.
//!
//! Only the payload-free kind of tagged-union variant is supported: the
//! discriminant is read through a string-shaped decode, and every
//! payload-bearing variant request fails naming the requested shape. This is
//! a deliberate scope limitation, not an oversight.

use vstd::prelude::*;

use crate::error::Error;
use crate::value::{Integer, Value};

verus! {

/// A decoder borrowing one dynamic value.
#[derive(Clone, Copy)]
pub struct Deserializer<'de> {
    /// The value under inspection; never mutated, only read.
    pub input: &'de Value,
}

/// What an untyped (self-describing) request finds: the natural shape of
/// the value's runtime tag.
pub enum AnyShape<'de> {
    /// Nil: the empty unit value.
    Unit,
    /// A boolean.
    Bool(bool),
    /// An integer, reported through the 64-bit signed read.
    I64(i64),
    /// Text, borrowed from the source.
    Text(&'de str),
    /// An array: read it element by element through [`Deserializer::deserialize_seq`].
    Sequence,
    /// A map: read it entry by entry through [`Deserializer::deserialize_map`].
    Dict,
    /// A byte blob, borrowed from the source.
    Bytes(&'de [u8]),
}

/// Where a sequence-shaped request leads: byte blobs and extension blobs
/// are accepted beside real arrays.
pub enum SeqShape<'de> {
    /// The source was a byte blob, exposed as a byte-sequence shape.
    Bytes(&'de [u8]),
    /// The source was an extension blob, exposed as its fixed 2-element
    /// sequence of tag and bytes.
    Ext(ExtDeserializer),
    /// The source was an array, exposed element by element in stored order.
    Elements(ArrayAccess<'de>),
}

impl<'de> Deserializer<'de> {
    /// Wraps a borrowed dynamic value for decoding.
    pub fn from_value(input: &'de Value) -> (r: Self)
        ensures
            r.input == input,
    {
        Deserializer { input }
    }

    /// An untyped request: maps the runtime tag to its natural shape.
    /// Floats and extension blobs have none and are unsupported here.
    pub fn deserialize_any(&self) -> (r: Result<AnyShape<'de>, Error>)
        ensures
            match *self.input {
                Value::Nil => r matches Ok(AnyShape::Unit),
                Value::Bool(b) => r matches Ok(AnyShape::Bool(c)) && c == b,
                Value::Int(n) => if i64::MIN <= n.as_int() <= i64::MAX {
                    r matches Ok(AnyShape::I64(v)) && v as int == n.as_int()
                } else {
                    (r matches Err(Error::TypeError(m)) && m@ == "expected i64"@)
                },
                Value::Str(_) => r matches Ok(AnyShape::Text(s)) && s@ == self.input->Str_0@,
                Value::Arr(_) => r matches Ok(AnyShape::Sequence),
                Value::Dict(_) => r matches Ok(AnyShape::Dict),
                Value::Bin(_) => r matches Ok(AnyShape::Bytes(b)) && b@ == self.input->Bin_0@,
                _ => r == Err::<AnyShape<'de>, Error>(Error::UnsupportedType),
            },
    {
        match self.input {
            Value::Nil => Ok(AnyShape::Unit),
            Value::Bool(b) => Ok(AnyShape::Bool(*b)),
            Value::Int(_) => match self.deserialize_i64() {
                Ok(v) => Ok(AnyShape::I64(v)),
                Err(e) => Err(e),
            },
            Value::Str(s) => Ok(AnyShape::Text(s.as_str())),
            Value::Arr(_) => Ok(AnyShape::Sequence),
            Value::Dict(_) => Ok(AnyShape::Dict),
            Value::Bin(b) => Ok(AnyShape::Bytes(b.as_slice())),
            _ => Err(Error::UnsupportedType),
        }
    }

    pub fn deserialize_bool(&self) -> (r: Result<bool, Error>)
        ensures
            match *self.input {
                Value::Bool(b) => r == Ok::<bool, Error>(b),
                _ => (r matches Err(Error::TypeError(m)) && m@ == "expected bool"@),
            },
    {
        match self.input.as_bool() {
            Some(b) => Ok(b),
            None => Err(Error::TypeError("expected bool".to_owned())),
        }
    }

    /// A fixed-width signed read goes through the 64-bit accessor and then
    /// narrows by a truncating cast: out-of-range values wrap silently.
    pub fn deserialize_i8(&self) -> (r: Result<i8, Error>)
        ensures
            match *self.input {
                Value::Int(n) => if i64::MIN <= n.as_int() <= i64::MAX {
                    r == Ok::<i8, Error>(n.as_int() as i8)
                } else {
                    (r matches Err(Error::TypeError(m)) && m@ == "expected i8"@)
                },
                _ => (r matches Err(Error::TypeError(m)) && m@ == "expected i8"@),
            },
    {
        match self.input.as_i64() {
            Some(v) => Ok(#[verifier::truncate] (v as i8)),
            None => Err(Error::TypeError("expected i8".to_owned())),
        }
    }

    pub fn deserialize_i16(&self) -> (r: Result<i16, Error>)
        ensures
            match *self.input {
                Value::Int(n) => if i64::MIN <= n.as_int() <= i64::MAX {
                    r == Ok::<i16, Error>(n.as_int() as i16)
                } else {
                    (r matches Err(Error::TypeError(m)) && m@ == "expected i16"@)
                },
                _ => (r matches Err(Error::TypeError(m)) && m@ == "expected i16"@),
            },
    {
        match self.input.as_i64() {
            Some(v) => Ok(#[verifier::truncate] (v as i16)),
            None => Err(Error::TypeError("expected i16".to_owned())),
        }
    }

    pub fn deserialize_i32(&self) -> (r: Result<i32, Error>)
        ensures
            match *self.input {
                Value::Int(n) => if i64::MIN <= n.as_int() <= i64::MAX {
                    r == Ok::<i32, Error>(n.as_int() as i32)
                } else {
                    (r matches Err(Error::TypeError(m)) && m@ == "expected i32"@)
                },
                _ => (r matches Err(Error::TypeError(m)) && m@ == "expected i32"@),
            },
    {
        match self.input.as_i64() {
            Some(v) => Ok(#[verifier::truncate] (v as i32)),
            None => Err(Error::TypeError("expected i32".to_owned())),
        }
    }

    pub fn deserialize_i64(&self) -> (r: Result<i64, Error>)
        ensures
            match *self.input {
                Value::Int(n) => if i64::MIN <= n.as_int() <= i64::MAX {
                    r matches Ok(v) && v as int == n.as_int()
                } else {
                    (r matches Err(Error::TypeError(m)) && m@ == "expected i64"@)
                },
                _ => (r matches Err(Error::TypeError(m)) && m@ == "expected i64"@),
            },
    {
        match self.input.as_i64() {
            Some(v) => Ok(v),
            None => Err(Error::TypeError("expected i64".to_owned())),
        }
    }

    /// A fixed-width unsigned read goes through the 64-bit accessor and then
    /// narrows by a truncating cast: out-of-range values wrap silently.
    pub fn deserialize_u8(&self) -> (r: Result<u8, Error>)
        ensures
            match *self.input {
                Value::Int(n) => if 0 <= n.as_int() {
                    r == Ok::<u8, Error>(n.as_int() as u8)
                } else {
                    (r matches Err(Error::TypeError(m)) && m@ == "expected u8"@)
                },
                _ => (r matches Err(Error::TypeError(m)) && m@ == "expected u8"@),
            },
    {
        match self.input.as_u64() {
            Some(v) => Ok(#[verifier::truncate] (v as u8)),
            None => Err(Error::TypeError("expected u8".to_owned())),
        }
    }

    pub fn deserialize_u16(&self) -> (r: Result<u16, Error>)
        ensures
            match *self.input {
                Value::Int(n) => if 0 <= n.as_int() {
                    r == Ok::<u16, Error>(n.as_int() as u16)
                } else {
                    (r matches Err(Error::TypeError(m)) && m@ == "expected u16"@)
                },
                _ => (r matches Err(Error::TypeError(m)) && m@ == "expected u16"@),
            },
    {
        match self.input.as_u64() {
            Some(v) => Ok(#[verifier::truncate] (v as u16)),
            None => Err(Error::TypeError("expected u16".to_owned())),
        }
    }

    pub fn deserialize_u32(&self) -> (r: Result<u32, Error>)
        ensures
            match *self.input {
                Value::Int(n) => if 0 <= n.as_int() {
                    r == Ok::<u32, Error>(n.as_int() as u32)
                } else {
                    (r matches Err(Error::TypeError(m)) && m@ == "expected u32"@)
                },
                _ => (r matches Err(Error::TypeError(m)) && m@ == "expected u32"@),
            },
    {
        match self.input.as_u64() {
            Some(v) => Ok(#[verifier::truncate] (v as u32)),
            None => Err(Error::TypeError("expected u32".to_owned())),
        }
    }

    pub fn deserialize_u64(&self) -> (r: Result<u64, Error>)
        ensures
            match *self.input {
                Value::Int(n) => if 0 <= n.as_int() {
                    r matches Ok(v) && v as int == n.as_int()
                } else {
                    (r matches Err(Error::TypeError(m)) && m@ == "expected u64"@)
                },
                _ => (r matches Err(Error::TypeError(m)) && m@ == "expected u64"@),
            },
    {
        match self.input.as_u64() {
            Some(v) => Ok(v),
            None => Err(Error::TypeError("expected u64".to_owned())),
        }
    }

    /// A 32-bit float request is unsupported and always fails: an asymmetry
    /// with the encoder, which does emit 32-bit floats.
    pub fn deserialize_f32(&self) -> (r: Result<u32, Error>)
        ensures
            r == Err::<u32, Error>(Error::UnsupportedType),
    {
        Err(Error::UnsupportedType)
    }

    /// A 64-bit float request accepts either float width and any integer;
    /// the caller turns the reported source into the actual float.
    pub fn deserialize_f64(&self) -> (r: Result<WideFloat, Error>)
        ensures
            match *self.input {
                Value::Int(n) => r matches Ok(WideFloat::FromInt(m)) && m == n,
                Value::F32(bits) => r matches Ok(WideFloat::FromF32(b)) && b == bits,
                Value::F64(bits) => r matches Ok(WideFloat::FromF64(b)) && b == bits,
                _ => (r matches Err(Error::TypeError(m)) && m@ == "expected f64"@),
            },
    {
        match self.input {
            Value::Int(n) => Ok(WideFloat::FromInt(*n)),
            Value::F32(bits) => Ok(WideFloat::FromF32(*bits)),
            Value::F64(bits) => Ok(WideFloat::FromF64(*bits)),
            _ => Err(Error::TypeError("expected f64".to_owned())),
        }
    }

    /// A single-character request is unsupported and always fails.
    pub fn deserialize_char(&self) -> (r: Result<char, Error>)
        ensures
            r == Err::<char, Error>(Error::UnsupportedType),
    {
        Err(Error::UnsupportedType)
    }

    /// A text request requires exactly a string; the characters are
    /// borrowed from the source tree, never copied.
    pub fn deserialize_str(&self) -> (r: Result<&'de str, Error>)
        ensures
            match *self.input {
                Value::Str(s) => r matches Ok(t) && t@ == s@,
                _ => (r matches Err(Error::TypeError(m)) && m@ == "expected string"@),
            },
    {
        match self.input.as_str() {
            Some(s) => Ok(s),
            None => Err(Error::TypeError("expected string".to_owned())),
        }
    }

    /// Owned-text requests read the same way as borrowed ones.
    pub fn deserialize_string(&self) -> (r: Result<&'de str, Error>)
        ensures
            match *self.input {
                Value::Str(s) => r matches Ok(t) && t@ == s@,
                _ => (r matches Err(Error::TypeError(m)) && m@ == "expected string"@),
            },
    {
        self.deserialize_str()
    }

    /// A binary request requires exactly a byte blob; the bytes are
    /// borrowed from the source tree, never copied.
    pub fn deserialize_bytes(&self) -> (r: Result<&'de [u8], Error>)
        ensures
            match *self.input {
                Value::Bin(b) => r matches Ok(s) && s@ == b@,
                _ => (r matches Err(Error::TypeError(m)) && m@ == "expected binary"@),
            },
    {
        match self.input.as_slice() {
            Some(b) => Ok(b),
            None => Err(Error::TypeError("expected binary".to_owned())),
        }
    }

    /// Owned-byte-buffer requests read the same way as borrowed ones.
    pub fn deserialize_byte_buf(&self) -> (r: Result<&'de [u8], Error>)
        ensures
            match *self.input {
                Value::Bin(b) => r matches Ok(s) && s@ == b@,
                _ => (r matches Err(Error::TypeError(m)) && m@ == "expected binary"@),
            },
    {
        self.deserialize_bytes()
    }

    /// An optional request: nil means absent; anything else is present, and
    /// the contained decode recurses into the same value.
    pub fn deserialize_option(&self) -> (r: Option<&'de Value>)
        ensures
            match *self.input {
                Value::Nil => r is None,
                _ => r == Some(self.input),
            },
    {
        match self.input {
            Value::Nil => None,
            _ => Some(self.input),
        }
    }

    /// A unit request requires exactly nil.
    pub fn deserialize_unit(&self) -> (r: Result<(), Error>)
        ensures
            match *self.input {
                Value::Nil => r == Ok::<(), Error>(()),
                _ => (r matches Err(Error::TypeError(m)) && m@ == "expected nil"@),
            },
    {
        match self.input {
            Value::Nil => Ok(()),
            _ => Err(Error::TypeError("expected nil".to_owned())),
        }
    }

    /// A named empty value reads like the anonymous one.
    pub fn deserialize_unit_struct(&self, _name: &str) -> (r: Result<(), Error>)
        ensures
            match *self.input {
                Value::Nil => r == Ok::<(), Error>(()),
                _ => (r matches Err(Error::TypeError(m)) && m@ == "expected nil"@),
            },
    {
        self.deserialize_unit()
    }

    /// A named wrapper is insignificant: its content decodes from the very
    /// same value.
    pub fn deserialize_newtype_struct(&self, _name: &str) -> (r: &'de Value)
        ensures
            r == self.input,
    {
        self.input
    }

    /// A sequence request: arrays are read element by element, byte blobs
    /// pass as a byte-sequence shape, and an extension blob is exposed as
    /// its fixed 2-element sequence of tag and bytes.
    pub fn deserialize_seq(&self) -> (r: Result<SeqShape<'de>, Error>)
        ensures
            match *self.input {
                Value::Bin(b) => r matches Ok(SeqShape::Bytes(s)) && s@ == b@,
                Value::Ext(tag, data) => r matches Ok(SeqShape::Ext(e)) && e.tag == tag
                    && e.data@ == data@ && e.offset == 0,
                Value::Arr(_) => r matches Ok(SeqShape::Elements(a)) && a.de.input == self.input
                    && a.offset == 0,
                _ => (r matches Err(Error::TypeError(m)) && m@ == "expected sequence type"@),
            },
    {
        match self.input {
            Value::Bin(b) => Ok(SeqShape::Bytes(b.as_slice())),
            Value::Ext(_, _) => Ok(SeqShape::Ext(ExtDeserializer::new(self.input))),
            Value::Arr(_) => Ok(SeqShape::Elements(ArrayAccess::new(*self))),
            _ => Err(Error::TypeError("expected sequence type".to_owned())),
        }
    }

    /// Tuples read just like sequences.
    pub fn deserialize_tuple(&self, _len: usize) -> (r: Result<SeqShape<'de>, Error>)
        ensures
            match *self.input {
                Value::Bin(b) => r matches Ok(SeqShape::Bytes(s)) && s@ == b@,
                Value::Ext(tag, data) => r matches Ok(SeqShape::Ext(e)) && e.tag == tag
                    && e.data@ == data@ && e.offset == 0,
                Value::Arr(_) => r matches Ok(SeqShape::Elements(a)) && a.de.input == self.input
                    && a.offset == 0,
                _ => (r matches Err(Error::TypeError(m)) && m@ == "expected sequence type"@),
            },
    {
        self.deserialize_seq()
    }

    /// Tuple structs read just like sequences.
    pub fn deserialize_tuple_struct(&self, _name: &str, _len: usize) -> (r: Result<
        SeqShape<'de>,
        Error,
    >)
        ensures
            match *self.input {
                Value::Bin(b) => r matches Ok(SeqShape::Bytes(s)) && s@ == b@,
                Value::Ext(tag, data) => r matches Ok(SeqShape::Ext(e)) && e.tag == tag
                    && e.data@ == data@ && e.offset == 0,
                Value::Arr(_) => r matches Ok(SeqShape::Elements(a)) && a.de.input == self.input
                    && a.offset == 0,
                _ => (r matches Err(Error::TypeError(m)) && m@ == "expected sequence type"@),
            },
    {
        self.deserialize_seq()
    }

    /// A map request requires exactly a map; entries are exposed key first,
    /// then value, in stored order.
    pub fn deserialize_map(&self) -> (r: Result<ValueMapAccess<'de>, Error>)
        ensures
            match *self.input {
                Value::Dict(_) => r matches Ok(a) && a.de.input == self.input && a.offset == 0,
                _ => (r matches Err(Error::TypeError(m)) && m@ == "expected map"@),
            },
    {
        match self.input {
            Value::Dict(_) => Ok(ValueMapAccess::new(*self)),
            _ => Err(Error::TypeError("expected map".to_owned())),
        }
    }

    /// An identifier reads as text.
    pub fn deserialize_identifier(&self) -> (r: Result<&'de str, Error>)
        ensures
            match *self.input {
                Value::Str(s) => r matches Ok(t) && t@ == s@,
                _ => (r matches Err(Error::TypeError(m)) && m@ == "expected string"@),
            },
    {
        self.deserialize_str()
    }

    /// A struct reads just like a map.
    pub fn deserialize_struct(&self, _name: &str) -> (r: Result<ValueMapAccess<'de>, Error>)
        ensures
            match *self.input {
                Value::Dict(_) => r matches Ok(a) && a.de.input == self.input && a.offset == 0,
                _ => (r matches Err(Error::TypeError(m)) && m@ == "expected map"@),
            },
    {
        self.deserialize_map()
    }

    /// A tagged-union request. Only payload-free variants are supported:
    /// the access object reads the discriminant through a string-shaped
    /// decode and refuses every payload-bearing kind.
    pub fn deserialize_enum(&self, _name: &str) -> (r: UnitVariantAccess<'de>)
        ensures
            r.de.input == self.input,
    {
        UnitVariantAccess::new(*self)
    }
}

/// What a 64-bit float request found; the caller, which may use floating
/// point, widens or converts the reported source itself.
#[derive(Clone, Copy, Debug, PartialEq, Eq)]
pub enum WideFloat {
    /// The source was an integer, to be cast.
    FromInt(Integer),
    /// The source was a 32-bit float with these bits, to be widened.
    FromF32(u32),
    /// The source was already a 64-bit float with these bits.
    FromF64(u64),
}

/// A cursor over the elements of one array, in stored order.
pub struct ArrayAccess<'de> {
    /// The decoder whose value the elements come from.
    pub de: Deserializer<'de>,
    /// How many elements have been handed out already.
    pub offset: usize,
}

impl<'de> ArrayAccess<'de> {
    /// A cursor at the first element.
    pub fn new(de: Deserializer<'de>) -> (r: Self)
        ensures
            r.de == de,
            r.offset == 0,
    {
        ArrayAccess { de, offset: 0 }
    }

    /// The next element in stored order, or nothing once the cursor has
    /// reached the length.
    pub fn next_element(&mut self) -> (r: Result<Option<&'de Value>, Error>)
        ensures
            match *old(self).de.input {
                Value::Arr(vs) => if old(self).offset < vs@.len() {
                    (r matches Ok(Some(e)) && *e == vs@[old(self).offset as int])
                        && final(self).offset == old(self).offset + 1
                        && final(self).de == old(self).de
                } else {
                    r == Ok::<Option<&'de Value>, Error>(None) && *final(self) == *old(self)
                },
                _ => (r matches Err(Error::TypeError(m)) && m@ == "expected array"@)
                    && *final(self) == *old(self),
            },
    {
        match self.de.input.as_array() {
            Some(arr) => {
                if self.offset < arr.len() {
                    let e = &arr[self.offset];
                    self.offset = self.offset + 1;
                    Ok(Some(e))
                } else {
                    Ok(None)
                }
            },
            None => Err(Error::TypeError("expected array".to_owned())),
        }
    }
}

/// A cursor over the entries of one map: each entry hands out its key, then
/// its value, in stored order.
pub struct ValueMapAccess<'de> {
    /// The decoder whose value the entries come from.
    pub de: Deserializer<'de>,
    /// How many keys have been handed out already.
    pub offset: usize,
}

impl<'de> ValueMapAccess<'de> {
    /// A cursor at the first entry.
    pub fn new(de: Deserializer<'de>) -> (r: Self)
        ensures
            r.de == de,
            r.offset == 0,
    {
        ValueMapAccess { de, offset: 0 }
    }

    /// The next entry's key in stored order, or nothing once the cursor has
    /// reached the length.
    pub fn next_key(&mut self) -> (r: Result<Option<&'de Value>, Error>)
        ensures
            match *old(self).de.input {
                Value::Dict(ps) => if old(self).offset < ps@.len() {
                    (r matches Ok(Some(k)) && *k == ps@[old(self).offset as int].0)
                        && final(self).offset == old(self).offset + 1
                        && final(self).de == old(self).de
                } else {
                    r == Ok::<Option<&'de Value>, Error>(None) && *final(self) == *old(self)
                },
                _ => (r matches Err(Error::TypeError(m)) && m@ == "expected map"@) && *final(self)
                    == *old(self),
            },
    {
        match self.de.input.as_map() {
            Some(m) => {
                if self.offset < m.len() {
                    let k = &m[self.offset].0;
                    self.offset = self.offset + 1;
                    Ok(Some(k))
                } else {
                    Ok(None)
                }
            },
            None => Err(Error::TypeError("expected map".to_owned())),
        }
    }

    /// The value paired with the most recently handed-out key. Asking for a
    /// value before any key is a driver bug, kept out by the precondition.
    pub fn next_value(&self) -> (r: Result<&'de Value, Error>)
        requires
            self.de.input matches Value::Dict(ps) ==> 1 <= self.offset <= ps@.len(),
        ensures
            match *self.de.input {
                Value::Dict(ps) => r matches Ok(v) && *v == ps@[self.offset - 1].1,
                _ => (r matches Err(Error::TypeError(m)) && m@ == "expected map"@),
            },
    {
        match self.de.input.as_map() {
            Some(m) => Ok(&m[self.offset - 1].1),
            None => Err(Error::TypeError("expected map".to_owned())),
        }
    }
}

/// The variant access object of a tagged-union request: reports the
/// discriminant and accepts only the payload-free variant kind.
pub struct UnitVariantAccess<'de> {
    /// The decoder the discriminant is read from.
    pub de: Deserializer<'de>,
}

impl<'de> UnitVariantAccess<'de> {
    /// Wraps the decoder the variant is read from.
    pub fn new(de: Deserializer<'de>) -> (r: Self)
        ensures
            r.de == de,
    {
        UnitVariantAccess { de }
    }

    /// The discriminant, read through a string-shaped decode.
    pub fn variant(&self) -> (r: Result<&'de str, Error>)
        ensures
            match *self.de.input {
                Value::Str(s) => r matches Ok(t) && t@ == s@,
                _ => (r matches Err(Error::TypeError(m)) && m@ == "expected string"@),
            },
    {
        self.de.deserialize_identifier()
    }

    /// A payload-free variant carries nothing further: always succeeds.
    pub fn unit_variant(&self) -> (r: Result<(), Error>)
        ensures
            r == Ok::<(), Error>(()),
    {
        Ok(())
    }

    /// A variant with one unnamed payload is not supported: fails for every
    /// input, naming the requested shape.
    pub fn newtype_variant(&self) -> (r: Result<(), Error>)
        ensures
            (r matches Err(Error::TypeError(m)) && m@ == "newtype variant"@),
    {
        Err(Error::TypeError("newtype variant".to_owned()))
    }

    /// A variant with an ordered payload list is not supported: fails for
    /// every input, naming the requested shape.
    pub fn tuple_variant(&self, _len: usize) -> (r: Result<(), Error>)
        ensures
            (r matches Err(Error::TypeError(m)) && m@ == "tuple variant"@),
    {
        Err(Error::TypeError("tuple variant".to_owned()))
    }

    /// A variant with named fields is not supported: fails for every input,
    /// naming the requested shape.
    pub fn struct_variant(&self) -> (r: Result<(), Error>)
        ensures
            (r matches Err(Error::TypeError(m)) && m@ == "struct variant"@),
    {
        Err(Error::TypeError("struct variant".to_owned()))
    }
}

/// The transient decoder of one extension blob, exposed to sequence-shaped
/// requests as exactly two positions: the tag, then the bytes.
pub struct ExtDeserializer {
    /// The blob's 8-bit type tag.
    pub tag: i8,
    /// The blob's bytes, copied out of the source value.
    pub data: Vec<u8>,
    /// How many of the two positions have been handed out already.
    pub offset: usize,
}

/// Which of the extension blob's two positions comes next.
#[derive(Clone, Copy, Debug, PartialEq, Eq)]
pub enum ExtPart {
    /// Position 0: the tag, meaningful only to integer-shaped reads.
    Tag,
    /// Position 1: the bytes, meaningful only to byte-shaped reads.
    Data,
}

impl ExtDeserializer {
    /// Splits an extension value into its tag and bytes.
    pub fn new(input: &Value) -> (r: ExtDeserializer)
        requires
            input matches Value::Ext(_, _),
        ensures
            input matches Value::Ext(tag, data) && r.tag == tag && r.data@ == data@
                && r.offset == 0,
    {
        match input {
            Value::Ext(tag, data) => ExtDeserializer {
                tag: *tag,
                data: vstd::slice::slice_to_vec(data.as_slice()),
                offset: 0,
            },
            _ => unreached(),
        }
    }

    /// Which position comes next, advancing the cursor; nothing after both
    /// positions are spent.
    pub fn next_part(&mut self) -> (r: Option<ExtPart>)
        ensures
            final(self).tag == old(self).tag && final(self).data == old(self).data,
            old(self).offset == 0 ==> r == Some(ExtPart::Tag) && final(self).offset == 1,
            old(self).offset == 1 ==> r == Some(ExtPart::Data) && final(self).offset == 2,
            old(self).offset >= 2 ==> r is None && final(self).offset == old(self).offset,
    {
        if self.offset == 0 {
            self.offset = 1;
            Some(ExtPart::Tag)
        } else if self.offset == 1 {
            self.offset = 2;
            Some(ExtPart::Data)
        } else {
            None
        }
    }

    /// Position 0 read as an 8-bit signed integer: the tag itself.
    pub fn tag_value(&self) -> (r: i8)
        ensures
            r == self.tag,
    {
        self.tag
    }

    /// Position 1 read as bytes: the blob's byte sequence.
    pub fn data_value(&self) -> (r: &[u8])
        ensures
            r@ == self.data@,
    {
        self.data.as_slice()
    }
}

} // verus!
