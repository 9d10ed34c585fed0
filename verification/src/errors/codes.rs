use vstd::prelude::*;

use crate::text::{dec_padded, push_char, push_dec_padded};

verus! {

/// A numbered error code (`E0001`, `E0201`, ...).
#[derive(Clone, Copy, PartialEq, Eq, Structural, Hash, Debug)]
pub struct ErrorCode(pub u16);

/// The text of a code: 'E' and its number in at least four digits.
pub open spec fn code_text(c: ErrorCode) -> Seq<char> {
    seq!['E'] + dec_padded(c.0 as nat, 4)
}

/// The documentation sentence of each code number.
pub open spec fn explain_text(n: u16) -> &'static str {
    if n == 1 {
        "invalid character in source"
    } else if n == 2 {
        "unterminated string literal"
    } else if n == 201 {
        "duplicate definition in the same scope"
    } else if n == 202 {
        "used before definition"
    } else if n == 203 {
        "unresolved import"
    } else if n == 204 {
        "cannot resolve name"
    } else if n == 300 {
        "type mismatch"
    } else if n == 301 {
        "wrong number of arguments"
    } else if n == 302 {
        "cannot infer type"
    } else if n == 303 {
        "non-exhaustive match"
    } else if n == 304 {
        "wrong return type"
    } else if n == 305 {
        "ambiguous type or trait resolution"
    } else if n == 306 {
        "trait bound not satisfied"
    } else {
        "no documentation available for this error code"
    }
}

impl ErrorCode {

    /// The code as text, e.g. `E0201`.
    pub fn as_str(self) -> (s: String)
        ensures
            s@ == code_text(self),
    {
        let mut out = String::new();
        push_char(&mut out, 'E');
        push_dec_padded(&mut out, self.0 as u128, 4);
        out
    }

    /// The one-line documentation of the code.
    pub fn explain(self) -> (s: &'static str)
        ensures
            s == explain_text(self.0),
    {
        let n = self.0;
        if n == 1 {
            "invalid character in source"
        } else if n == 2 {
            "unterminated string literal"
        } else if n == 201 {
            "duplicate definition in the same scope"
        } else if n == 202 {
            "used before definition"
        } else if n == 203 {
            "unresolved import"
        } else if n == 204 {
            "cannot resolve name"
        } else if n == 300 {
            "type mismatch"
        } else if n == 301 {
            "wrong number of arguments"
        } else if n == 302 {
            "cannot infer type"
        } else if n == 303 {
            "non-exhaustive match"
        } else if n == 304 {
            "wrong return type"
        } else if n == 305 {
            "ambiguous type or trait resolution"
        } else if n == 306 {
            "trait bound not satisfied"
        } else {
            "no documentation available for this error code"
        }
    }
}

} // verus!
