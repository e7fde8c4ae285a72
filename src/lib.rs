//! Lowering of Bril programs (a typed three-address IR) to an SSA,
//! block-structured target IR that is handed to the Cranelift backend.

pub mod error;
pub mod source;
pub mod target;
pub mod types;
pub mod regalloc;
pub mod lower;
pub mod cfg;
pub mod program;
pub mod backend;
