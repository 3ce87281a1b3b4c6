//! The dynamic tagged-union value tree of the interchange format, with its
//! mathematical model.

use vstd::prelude::*;

verus! {

/// A signed-or-unsigned 64-bit integer, kept in whichever of the two
/// representations the source value had.
#[derive(Debug, Clone, Copy, PartialEq, Eq)]
pub enum Integer {
    /// A value read as unsigned; covers `0 ..= u64::MAX`.
    Pos(u64),
    /// A value read as signed; well-formed only when strictly negative.
    Neg(i64),
}

impl Integer {
    /// The mathematical value.
    pub open spec fn as_int(self) -> int {
        match self {
            Integer::Pos(n) => n as int,
            Integer::Neg(n) => n as int,
        }
    }

    /// Well-formed: the `Neg` arm holds only strictly negative values, so
    /// each mathematical value has exactly one representation.
    pub open spec fn wf(self) -> bool {
        match self {
            Integer::Pos(_) => true,
            Integer::Neg(n) => n < 0,
        }
    }

    /// Widens a signed value.
    pub fn from_i64(n: i64) -> (r: Integer)
        ensures
            r.wf(),
            r.as_int() == n as int,
    {
        if n < 0 {
            Integer::Neg(n)
        } else {
            Integer::Pos(n as u64)
        }
    }

    /// Widens an unsigned value.
    pub fn from_u64(n: u64) -> (r: Integer)
        ensures
            r.wf(),
            r.as_int() == n as int,
    {
        Integer::Pos(n)
    }

    /// The value as `i64`, if it fits.
    pub fn as_i64(self) -> (r: Option<i64>)
        ensures
            r matches Some(v) <==> i64::MIN <= self.as_int() <= i64::MAX,
            r matches Some(v) ==> v as int == self.as_int(),
    {
        match self {
            Integer::Pos(n) => {
                if n <= i64::MAX as u64 {
                    Some(n as i64)
                } else {
                    None
                }
            },
            Integer::Neg(n) => Some(n),
        }
    }

    /// The value as `u64`, if it is not negative.
    pub fn as_u64(self) -> (r: Option<u64>)
        ensures
            r matches Some(v) <==> 0 <= self.as_int(),
            r matches Some(v) ==> v as int == self.as_int(),
    {
        match self {
            Integer::Pos(n) => Some(n),
            Integer::Neg(n) => {
                if n >= 0 {
                    Some(n as u64)
                } else {
                    None
                }
            },
        }
    }
}

/// The mathematical model of a [`Value`]: the same tree over `int`, `Seq`
/// and the float bit patterns, with the integer representation forgotten.
#[verifier::ext_equal]
pub enum Dyn {
    Nil,
    Bool(bool),
    Int(int),
    F32(u32),
    F64(u64),
    Str(Seq<char>),
    Bin(Seq<u8>),
    Arr(Seq<Dyn>),
    Dict(Seq<(Dyn, Dyn)>),
    Ext(i8, Seq<u8>),
}

/// One dynamic value of the interchange format: a closed tagged union of
/// nil, booleans, 64-bit integers, floats (held as IEEE 754 bit patterns),
/// text, byte blobs, arrays, maps and tagged extension blobs.
///
/// A `Dict` entry's position is its insertion order; duplicate keys are
/// permitted and nothing is sorted.
#[derive(Debug, PartialEq)]
pub enum Value {
    Nil,
    Bool(bool),
    Int(Integer),
    F32(u32),
    F64(u64),
    Str(String),
    Bin(Vec<u8>),
    Arr(Vec<Value>),
    Dict(Vec<(Value, Value)>),
    Ext(i8, Vec<u8>),
}

/// The models of a sequence of values, elementwise.
pub open spec fn model_seq(s: Seq<Value>) -> Seq<Dyn>
    decreases s,
{
    if s.len() == 0 {
        Seq::empty()
    } else {
        model_seq(s.drop_last()).push(s.last().model())
    }
}

/// The models of a sequence of key/value pairs, elementwise.
pub open spec fn model_pairs(s: Seq<(Value, Value)>) -> Seq<(Dyn, Dyn)>
    decreases s,
{
    if s.len() == 0 {
        Seq::empty()
    } else {
        model_pairs(s.drop_last()).push((s.last().0.model(), s.last().1.model()))
    }
}

/// `model_seq` maps elementwise.
pub broadcast proof fn lemma_model_seq(s: Seq<Value>)
    ensures
        #[trigger] model_seq(s).len() == s.len(),
        forall|i: int| 0 <= i < s.len() ==> #[trigger] model_seq(s)[i] == s[i].model(),
    decreases s,
{
    if s.len() > 0 {
        lemma_model_seq(s.drop_last());
        assert forall|i: int| 0 <= i < s.len() implies #[trigger] model_seq(s)[i]
            == s[i].model() by {
            if i < s.len() - 1 {
                assert(s.drop_last()[i] == s[i]);
            } else {
                assert(s[i] == s.last());
            }
        }
    }
}

/// `model_pairs` maps elementwise.
pub broadcast proof fn lemma_model_pairs(s: Seq<(Value, Value)>)
    ensures
        #[trigger] model_pairs(s).len() == s.len(),
        forall|i: int|
            0 <= i < s.len() ==> #[trigger] model_pairs(s)[i] == (s[i].0.model(), s[i].1.model()),
    decreases s,
{
    if s.len() > 0 {
        lemma_model_pairs(s.drop_last());
        assert forall|i: int|
            0 <= i < s.len() implies #[trigger] model_pairs(s)[i] == (s[i].0.model(),
        s[i].1.model()) by {
            if i < s.len() - 1 {
                assert(s.drop_last()[i] == s[i]);
            } else {
                assert(s[i] == s.last());
            }
        }
    }
}

impl Value {
    /// The mathematical value this tree stands for.
    pub open spec fn model(self) -> Dyn
        decreases self,
    {
        match self {
            Value::Nil => Dyn::Nil,
            Value::Bool(b) => Dyn::Bool(b),
            Value::Int(n) => Dyn::Int(n.as_int()),
            Value::F32(bits) => Dyn::F32(bits),
            Value::F64(bits) => Dyn::F64(bits),
            Value::Str(s) => Dyn::Str(s@),
            Value::Bin(b) => Dyn::Bin(b@),
            Value::Arr(vs) => Dyn::Arr(model_seq(vs@)),
            Value::Dict(ps) => Dyn::Dict(model_pairs(ps@)),
            Value::Ext(tag, data) => Dyn::Ext(tag, data@),
        }
    }

    /// Well-formed: every integer in the tree is in canonical representation.
    pub open spec fn wf(self) -> bool
        decreases self,
    {
        match self {
            Value::Int(n) => n.wf(),
            Value::Arr(vs) => forall|i: int|
                #![trigger vs@[i]]
                0 <= i < vs@.len() ==> vs@[i].wf(),
            Value::Dict(ps) => forall|i: int|
                #![trigger ps@[i]]
                0 <= i < ps@.len() ==> ps@[i].0.wf() && ps@[i].1.wf(),
            _ => true,
        }
    }

    /// The boolean inside, if this is `Bool`.
    pub fn as_bool(&self) -> (r: Option<bool>)
        ensures
            r == (match *self {
                Value::Bool(b) => Some(b),
                _ => None::<bool>,
            }),
    {
        match self {
            Value::Bool(b) => Some(*b),
            _ => None,
        }
    }

    /// The integer as `i64`, if this is an `Int` that fits.
    pub fn as_i64(&self) -> (r: Option<i64>)
        ensures
            r matches Some(v) <==> (self matches Value::Int(n)
                && i64::MIN <= n.as_int() <= i64::MAX),
            r matches Some(v) ==> self matches Value::Int(n) && v as int == n.as_int(),
    {
        match self {
            Value::Int(n) => n.as_i64(),
            _ => None,
        }
    }

    /// The integer as `u64`, if this is a non-negative `Int`.
    pub fn as_u64(&self) -> (r: Option<u64>)
        ensures
            r matches Some(v) <==> (self matches Value::Int(n) && 0 <= n.as_int()),
            r matches Some(v) ==> self matches Value::Int(n) && v as int == n.as_int(),
    {
        match self {
            Value::Int(n) => n.as_u64(),
            _ => None,
        }
    }

    /// The text inside, if this is `Str`.
    pub fn as_str(&self) -> (r: Option<&str>)
        ensures
            r matches Some(s) <==> self matches Value::Str(_),
            r matches Some(s) ==> self matches Value::Str(t) && s@ == t@,
    {
        match self {
            Value::Str(s) => Some(s.as_str()),
            _ => None,
        }
    }

    /// The bytes inside, if this is `Bin`.
    pub fn as_slice(&self) -> (r: Option<&[u8]>)
        ensures
            r matches Some(b) <==> self matches Value::Bin(_),
            r matches Some(b) ==> self matches Value::Bin(v) && b@ == v@,
    {
        match self {
            Value::Bin(b) => Some(b.as_slice()),
            _ => None,
        }
    }

    /// The elements inside, if this is `Arr`.
    pub fn as_array(&self) -> (r: Option<&Vec<Value>>)
        ensures
            r matches Some(a) <==> self matches Value::Arr(_),
            r matches Some(a) ==> self matches Value::Arr(vs) && a@ == vs@,
    {
        match self {
            Value::Arr(vs) => Some(vs),
            _ => None,
        }
    }

    /// The entries inside, if this is `Dict`.
    pub fn as_map(&self) -> (r: Option<&Vec<(Value, Value)>>)
        ensures
            r matches Some(m) <==> self matches Value::Dict(_),
            r matches Some(m) ==> self matches Value::Dict(ps) && m@ == ps@,
    {
        match self {
            Value::Dict(ps) => Some(ps),
            _ => None,
        }
    }

    /// The tag and bytes inside, if this is `Ext`.
    pub fn as_ext(&self) -> (r: Option<(i8, &[u8])>)
        ensures
            r matches Some(e) <==> self matches Value::Ext(_, _),
            r matches Some(e) ==> self matches Value::Ext(tag, data) && e.0 == tag
                && e.1@ == data@,
    {
        match self {
            Value::Ext(tag, data) => Some((*tag, data.as_slice())),
            _ => None,
        }
    }
}

} // verus!
