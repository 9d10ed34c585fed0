//! What the C compiler is told when the generated C is linked.

use vstd::prelude::*;

use crate::driver::session::OptLevel;

verus! {

/// The C compiler's flag for an optimisation level.
pub open spec fn opt_flag_text(opt: OptLevel) -> Seq<char> {
    match opt {
        OptLevel::O0 => "-O0"@,
        OptLevel::O1 => "-O1"@,
        OptLevel::O2 => "-O2"@,
        OptLevel::O3 => "-O3"@,
    }
}

/// The C compiler's flag for an optimisation level.
pub fn opt_flag(opt: OptLevel) -> (s: &'static str)
    ensures
        s@ == opt_flag_text(opt),
{
    match opt {
        OptLevel::O0 => "-O0",
        OptLevel::O1 => "-O1",
        OptLevel::O2 => "-O2",
        OptLevel::O3 => "-O3",
    }
}

} // verus!
