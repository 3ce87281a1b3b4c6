//! Bridges a type-driven serialization protocol with the dynamic tagged-union
//! value tree of a MessagePack-like interchange format.
//!
//! The [`value::Value`] type models the format's self-describing values: nil,
//! booleans, 64-bit integers, floats (carried as bit patterns), text, binary
//! blobs, arrays, maps of ordered key/value pairs, and tagged extension blobs.
//! [`ser::Serializer`] builds one `Value` from the callbacks a typed value's
//! structure drives; [`de::Deserializer`] reads a borrowed `Value` back in the
//! shape a target type requests. [`typed::encode`] and [`typed::decode`] run
//! the two engines over a closed set of typed shapes, and the round-trip law
//! between them is proved in [`typed`].
//!
//! A wrapper type whose name is [`MSGPACK_EXT_STRUCT_NAME`], holding a pair of
//! an 8-bit tag and a byte blob, is the convention for the format's extension
//! type: the encoder turns such a wrapper into `Value::Ext`, and the decoder
//! exposes `Value::Ext` back as that 2-element pair.

use vstd::prelude::*;

pub mod de;
pub mod error;
pub mod ser;
pub mod typed;
pub mod value;

pub use error::Error;

verus! {

/// Name of the wrapper type that stands for the format's extension blob.
///
/// Extension format: `Ext(tag, bytes)`; protocol shape: `_ExtStruct((tag, bytes))`.
pub const MSGPACK_EXT_STRUCT_NAME: &'static str = "_ExtStruct";

} // verus!
