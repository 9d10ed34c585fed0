//! Native code generation: C source from MIR.

use vstd::prelude::*;

pub mod c;

verus! {

/// The entry point of the optional LLVM back end, which default builds
/// leave out; it does nothing.
pub fn compile_llvm_stub() {
}

} // verus!
