//! A small stack-based bytecode machine: a decoder from bytes to
//! instructions and an executor that runs them against an operand stack.
pub mod instruction;
pub mod decoder;
pub mod executor;
pub mod program;

pub use instruction::{Operation, VmError};
pub use decoder::{decode, encode_program, parse_loop};
pub use executor::{BinaryOp, apply_binary, binary_op, execute_program};
pub use program::{run_hex_program, run_program};
