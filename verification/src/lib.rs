//! A minimal execution engine for the classic eight-symbol tape-machine
//! byte code: a program store, a growable tape of 8-bit cells, a data
//! pointer and a program counter, driven by a dispatch loop.  The input
//! instruction is deliberately not implemented: unrecognized bytes,
//! the input operator among them, are no-ops.

pub mod laws;
pub mod semantics;
pub mod vm;
