//! The compiler driver: options, the session of one compilation, the
//! pipeline stages from tokens to MIR, and the C compiler's flags.

pub mod session;
pub mod link;
pub mod pipeline;
