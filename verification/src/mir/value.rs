use vstd::prelude::*;

use crate::ids::DefId;

verus! {

/// A run-time value of the MIR interpreter; a float is kept as its text.
#[derive(Debug, PartialEq)]
pub enum Value {
    Unit,
    Bool(bool),
    Int(i64),
    Float(String),
    String(String),
    Tuple(Vec<Value>),
    Struct { def: DefId, fields: Vec<Value> },
    Enum { def: DefId, variant: u32, payload: Option<Box<Value>> },
}

/// The mathematical content of a value: strings as character sequences and
/// components as sequences.
pub enum VVal {
    Unit,
    Bool(bool),
    Int(i64),
    Float(Seq<char>),
    Str(Seq<char>),
    Tuple(Seq<VVal>),
    Struct { def: DefId, fields: Seq<VVal> },
    Enum { def: DefId, variant: u32, payload: Option<Box<VVal>> },
}

pub open spec fn value_view(v: Value) -> VVal
    decreases v,
{
    match v {
        Value::Unit => VVal::Unit,
        Value::Bool(b) => VVal::Bool(b),
        Value::Int(n) => VVal::Int(n),
        Value::Float(s) => VVal::Float(s@),
        Value::String(s) => VVal::Str(s@),
        Value::Tuple(xs) => VVal::Tuple(values_view(xs@)),
        Value::Struct { def, fields } => VVal::Struct { def, fields: values_view(fields@) },
        Value::Enum { def, variant, payload } => VVal::Enum {
            def,
            variant,
            payload: match payload {
                Some(b) => Some(Box::new(value_view(*b))),
                None => None,
            },
        },
    }
}

pub open spec fn values_view(s: Seq<Value>) -> Seq<VVal>
    decreases s,
{
    Seq::new(s.len(), |i: int| if 0 <= i < s.len() { value_view(s[i]) } else { VVal::Unit })
}

} // verus!

verus! {

/// The integer a value holds, if it is one.
pub open spec fn vv_as_int(v: VVal) -> Option<i64> {
    match v {
        VVal::Int(n) => Some(n),
        _ => None,
    }
}

/// The boolean a value holds, if it is one.
pub open spec fn vv_as_bool(v: VVal) -> Option<bool> {
    match v {
        VVal::Bool(b) => Some(b),
        _ => None,
    }
}

/// The number `switchInt` compares: a boolean as 0 or 1, an integer as its
/// two's complement bits, an enum as its variant, anything else as 0.
pub open spec fn vv_discriminant(v: VVal) -> u128 {
    match v {
        VVal::Bool(b) => if b { 1 } else { 0 },
        VVal::Int(n) => n as u128,
        VVal::Enum { variant, .. } => variant as u128,
        _ => 0,
    }
}

impl Value {
    /// The integer this value holds, if it is one.
    pub fn as_int(&self) -> (r: Option<i64>)
        ensures
            r == vv_as_int(value_view(*self)),
    {
        match self {
            Value::Int(n) => Some(*n),
            _ => None,
        }
    }

    /// The boolean this value holds, if it is one.
    pub fn as_bool(&self) -> (r: Option<bool>)
        ensures
            r == vv_as_bool(value_view(*self)),
    {
        match self {
            Value::Bool(b) => Some(*b),
            _ => None,
        }
    }

    /// The number `switchInt` compares this value by.
    pub fn discriminant_u128(&self) -> (d: u128)
        ensures
            d == vv_discriminant(value_view(*self)),
    {
        match self {
            Value::Bool(false) => 0,
            Value::Bool(true) => 1,
            Value::Int(n) => *n as u128,
            Value::Enum { variant, .. } => *variant as u128,
            _ => 0,
        }
    }

    /// A copy of this value.
    pub fn deep_copy(&self) -> (r: Value)
        ensures
            value_view(r) == value_view(*self),
        decreases self,
    {
        match self {
            Value::Unit => Value::Unit,
            Value::Bool(b) => Value::Bool(*b),
            Value::Int(n) => Value::Int(*n),
            Value::Float(s) => Value::Float(s.clone()),
            Value::String(s) => Value::String(s.clone()),
            Value::Tuple(xs) => Value::Tuple(copy_values(xs)),
            Value::Struct { def, fields } => Value::Struct { def: *def, fields: copy_values(fields) },
            Value::Enum { def, variant, payload } => {
                let p = match payload {
                    Some(b) => Some(Box::new((**b).deep_copy())),
                    None => None,
                };
                Value::Enum { def: *def, variant: *variant, payload: p }
            },
        }
    }
}

/// A copy of a list of values.
pub fn copy_values(xs: &Vec<Value>) -> (r: Vec<Value>)
    ensures
        values_view(r@) == values_view(xs@),
    decreases xs,
{
    let mut r: Vec<Value> = Vec::new();
    let mut i: usize = 0;
    while i < xs.len()
        invariant
            i <= xs@.len(),
            r@.len() == i,
            forall|j: int| 0 <= j < i ==> value_view(#[trigger] r@[j]) == value_view(xs@[j]),
        decreases xs@.len() - i,
    {
        proof {
            assert(decreases_to!(xs => xs@[i as int]));
        }
        let c = xs[i].deep_copy();
        r.push(c);
        i = i + 1;
    }
    assert(values_view(r@) =~= values_view(xs@));
    r
}

} // verus!
