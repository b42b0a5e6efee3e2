//! The instruction set, its binary encoding and the error kinds of a run.
use vstd::prelude::*;

verus! {

/// One instruction of the machine. Each variant has exactly one opcode.
#[derive(Debug, Clone, Copy, PartialEq, Eq, Structural)]
pub enum Operation {
    /// `0x01`: `a + b`, wrapping.
    ADD,
    /// `0x02`: `a * b`, wrapping.
    MUL,
    /// `0x03`: `a - b`, wrapping.
    SUB,
    /// `0x04`: `a / b`, truncating.
    DIV,
    /// `0x06`: `a % b`.
    MOD,
    /// `0x0A`: `a` to the power `b`, wrapping.
    EXP,
    /// `0x50`: drops the top value.
    POP,
    /// `0x7F` and four big-endian bytes: pushes the value.
    PUSH32(u32),
    /// `0x00`: halts without a value.
    STOP,
    /// `0xF3`: pops the top value and ends the run with it.
    RETURN,
}

/// Why decoding or executing a program failed.
#[derive(Debug, Clone, Copy, PartialEq, Eq, Structural)]
pub enum VmError {
    /// The byte at the given offset is no opcode.
    InvalidOpcode(u8, usize),
    /// The operand of the push at the given offset runs past the end of input.
    TruncatedOperand(usize),
    /// An instruction needed more values than the stack held.
    StackUnderflow,
    /// `DIV` or `MOD` with a zero second operand.
    DivisionByZero,
    /// The program ended, or reached `STOP`, without a `RETURN`.
    NoReturnValue,
    /// The program text is not a sequence of hexadecimal digit pairs.
    InvalidHex,
}

pub const OP_STOP: u8 = 0x00;
pub const OP_ADD: u8 = 0x01;
pub const OP_MUL: u8 = 0x02;
pub const OP_SUB: u8 = 0x03;
pub const OP_DIV: u8 = 0x04;
pub const OP_MOD: u8 = 0x06;
pub const OP_EXP: u8 = 0x0A;
pub const OP_POP: u8 = 0x50;
pub const OP_PUSH32: u8 = 0x7F;
pub const OP_RETURN: u8 = 0xF3;

/// The opcode byte of an instruction.
pub open spec fn opcode_of(op: Operation) -> u8 {
    match op {
        Operation::STOP => OP_STOP,
        Operation::ADD => OP_ADD,
        Operation::MUL => OP_MUL,
        Operation::SUB => OP_SUB,
        Operation::DIV => OP_DIV,
        Operation::MOD => OP_MOD,
        Operation::EXP => OP_EXP,
        Operation::POP => OP_POP,
        Operation::PUSH32(_) => OP_PUSH32,
        Operation::RETURN => OP_RETURN,
    }
}

/// The instruction that a one-byte opcode stands for; `None` for the push
/// opcode, which carries an operand, and for every byte that is no opcode.
pub open spec fn single_byte_op(b: u8) -> Option<Operation> {
    if b == OP_STOP {
        Some(Operation::STOP)
    } else if b == OP_ADD {
        Some(Operation::ADD)
    } else if b == OP_MUL {
        Some(Operation::MUL)
    } else if b == OP_SUB {
        Some(Operation::SUB)
    } else if b == OP_DIV {
        Some(Operation::DIV)
    } else if b == OP_MOD {
        Some(Operation::MOD)
    } else if b == OP_EXP {
        Some(Operation::EXP)
    } else if b == OP_POP {
        Some(Operation::POP)
    } else if b == OP_RETURN {
        Some(Operation::RETURN)
    } else {
        None
    }
}

/// Whether a byte is one of the recognized opcodes.
pub open spec fn is_opcode(b: u8) -> bool {
    b == OP_PUSH32 || single_byte_op(b).is_some()
}

/// The value of four bytes read most significant first.
pub open spec fn be_value(b: Seq<u8>) -> int {
    b[0] as int * 0x1000000 + b[1] as int * 0x10000 + b[2] as int * 0x100 + b[3] as int
}

/// The four bytes of a value, most significant first.
pub open spec fn be_bytes(v: u32) -> Seq<u8> {
    seq![
        (v / 0x1000000) as u8,
        (v / 0x10000 % 0x100) as u8,
        (v / 0x100 % 0x100) as u8,
        (v % 0x100) as u8,
    ]
}

/// The encoding of one instruction: its opcode, then for a push the
/// operand in four big-endian bytes.
pub open spec fn op_bytes(op: Operation) -> Seq<u8> {
    match op {
        Operation::PUSH32(v) => seq![OP_PUSH32] + be_bytes(v),
        _ => seq![opcode_of(op)],
    }
}

/// The encoding of a program: its instructions' encodings in order.
pub open spec fn encode_spec(ops: Seq<Operation>) -> Seq<u8>
    decreases ops.len(),
{
    if ops.len() == 0 {
        seq![]
    } else {
        op_bytes(ops[0]) + encode_spec(ops.drop_first())
    }
}

/// Reading back the bytes of a value gives the value.
pub proof fn lemma_be_value_of_bytes(v: u32)
    ensures
        be_value(be_bytes(v)) == v as int,
{
    let b = be_bytes(v);
    assert(b[0] as int == v as int / 0x1000000);
    assert(b[1] as int == v as int / 0x10000 % 0x100);
    assert(b[2] as int == v as int / 0x100 % 0x100);
    assert(b[3] as int == v as int % 0x100);
    assert(v == (v / 0x1000000) * 0x1000000 + (v / 0x10000 % 0x100) * 0x10000 + (v / 0x100
        % 0x100) * 0x100 + v % 0x100) by (bit_vector);
}

/// The instruction that a one-byte opcode stands for.
pub fn single_byte_operation(b: u8) -> (r: Option<Operation>)
    ensures
        r == single_byte_op(b),
{
    match b {
        OP_STOP => Some(Operation::STOP),
        OP_ADD => Some(Operation::ADD),
        OP_MUL => Some(Operation::MUL),
        OP_SUB => Some(Operation::SUB),
        OP_DIV => Some(Operation::DIV),
        OP_MOD => Some(Operation::MOD),
        OP_EXP => Some(Operation::EXP),
        OP_POP => Some(Operation::POP),
        OP_RETURN => Some(Operation::RETURN),
        _ => None,
    }
}

} // verus!
