use vstd::prelude::*;

verus! {

/// A syntax-level literal value. A float literal is held as the text that
/// Rust's `Display` gives for its `f64` value.
#[derive(Clone, Debug)]
pub enum Literal {
    Int(i64),
    Float(String),
    String(String),
    Bytes(Vec<u8>),
    Bool(bool),
    Char(char),
    NoneValue,
}

/// Two literals hold the same value (byte strings compared by contents).
pub open spec fn literal_same(a: Literal, b: Literal) -> bool {
    match (a, b) {
        (Literal::Bytes(x), Literal::Bytes(y)) => x@ == y@,
        (Literal::Bytes(_), _) => false,
        (_, Literal::Bytes(_)) => false,
        _ => a == b,
    }
}

/// A copy of `lit` holding the same value.
pub fn clone_literal(lit: &Literal) -> (r: Literal)
    ensures
        literal_same(r, *lit),
{
    match lit {
        Literal::Int(n) => Literal::Int(*n),
        Literal::Float(s) => Literal::Float(s.clone()),
        Literal::String(s) => Literal::String(s.clone()),
        Literal::Bytes(b) => {
            let c = b.clone();
            assert(c@ =~= b@);
            Literal::Bytes(c)
        },
        Literal::Bool(b) => Literal::Bool(*b),
        Literal::Char(c) => Literal::Char(*c),
        Literal::NoneValue => Literal::NoneValue,
    }
}

} // verus!
