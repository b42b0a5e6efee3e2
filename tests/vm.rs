use stackvm::{
    apply_binary, binary_op, decode, encode_program, execute_program, parse_loop,
    run_hex_program, run_program, BinaryOp, Operation, VmError,
};
use stackvm::instruction::single_byte_operation;

fn run(ops: Vec<Operation>) -> Result<u32, VmError> {
    execute_program(&ops)
}

#[test]
fn decode_unknown_opcode() {
    assert_eq!(decode(&[0x05]), Err(VmError::InvalidOpcode(0x05, 0)));
}

#[test]
fn decode_every_unknown_byte_fails_at_its_offset() {
    for b in 0u8..=255 {
        let known = single_byte_operation(b).is_some() || b == 0x7F;
        if !known {
            assert_eq!(decode(&[b]), Err(VmError::InvalidOpcode(b, 0)));
            assert_eq!(decode(&[0x01, b, 0x01]), Err(VmError::InvalidOpcode(b, 1)));
        }
    }
}

#[test]
fn decode_truncated_push() {
    assert_eq!(decode(&[0x7F, 0x00, 0x00]), Err(VmError::TruncatedOperand(0)));
}

#[test]
fn decode_truncated_push_later() {
    assert_eq!(
        decode(&[0x01, 0x7F, 0x00, 0x00, 0x00]),
        Err(VmError::TruncatedOperand(1))
    );
}

#[test]
fn decode_empty() {
    assert_eq!(decode(&[]), Ok(vec![]));
}

#[test]
fn decode_push_is_big_endian() {
    assert_eq!(
        decode(&[0x7F, 0x01, 0x02, 0x03, 0x04]),
        Ok(vec![Operation::PUSH32(0x0102_0304)])
    );
}

#[test]
fn decode_all_opcodes() {
    let bytes = [
        0x00, 0x01, 0x02, 0x03, 0x04, 0x06, 0x0A, 0x50, 0x7F, 0xDE, 0xAD, 0xBE, 0xEF, 0xF3,
    ];
    let ops = decode(&bytes).unwrap();
    assert_eq!(
        ops,
        vec![
            Operation::STOP,
            Operation::ADD,
            Operation::MUL,
            Operation::SUB,
            Operation::DIV,
            Operation::MOD,
            Operation::EXP,
            Operation::POP,
            Operation::PUSH32(0xDEAD_BEEF),
            Operation::RETURN,
        ]
    );
    assert_eq!(ops.len(), 10);
}

#[test]
fn decode_count_equals_opcode_count() {
    let bytes = [0x7F, 0, 0, 0, 3, 0x7F, 0, 0, 0, 4, 0x01, 0xF3];
    assert_eq!(decode(&bytes).unwrap().len(), 4);
}

#[test]
fn encode_then_decode_round_trip() {
    let ops = vec![
        Operation::PUSH32(0),
        Operation::PUSH32(u32::MAX),
        Operation::PUSH32(0x0102_0304),
        Operation::ADD,
        Operation::MUL,
        Operation::SUB,
        Operation::DIV,
        Operation::MOD,
        Operation::EXP,
        Operation::POP,
        Operation::STOP,
        Operation::RETURN,
    ];
    let bytes = encode_program(&ops);
    assert_eq!(bytes.len(), 3 * 5 + 9);
    assert_eq!(decode(&bytes), Ok(ops));
}

#[test]
fn encode_bytes_exact() {
    let ops = vec![Operation::PUSH32(3), Operation::PUSH32(4), Operation::ADD, Operation::RETURN];
    assert_eq!(
        encode_program(&ops),
        vec![0x7F, 0, 0, 0, 3, 0x7F, 0, 0, 0, 4, 0x01, 0xF3]
    );
}

#[test]
fn parse_loop_appends_from_offset() {
    let mut ops = vec![Operation::STOP];
    let r = parse_loop(&mut ops, &[0x05, 0x01, 0xF3], 1);
    assert_eq!(r, Ok(()));
    assert_eq!(ops, vec![Operation::STOP, Operation::ADD, Operation::RETURN]);
}

#[test]
fn parse_loop_leaves_ops_on_error() {
    let mut ops = vec![Operation::POP];
    let r = parse_loop(&mut ops, &[0x01, 0x02, 0x07], 0);
    assert_eq!(r, Err(VmError::InvalidOpcode(0x07, 2)));
    assert_eq!(ops, vec![Operation::POP]);
}

#[test]
fn execute_three_plus_four() {
    let ops = vec![Operation::PUSH32(3), Operation::PUSH32(4), Operation::ADD, Operation::RETURN];
    assert_eq!(run(ops), Ok(7));
}

#[test]
fn execute_868() {
    let ops = vec![
        Operation::PUSH32(137),
        Operation::PUSH32(44),
        Operation::ADD,
        Operation::PUSH32(5),
        Operation::MUL,
        Operation::PUSH32(37),
        Operation::SUB,
        Operation::RETURN,
    ];
    assert_eq!(run(ops), Ok(868));
}

#[test]
fn execute_add_on_empty_stack() {
    assert_eq!(run(vec![Operation::ADD, Operation::RETURN]), Err(VmError::StackUnderflow));
}

#[test]
fn execute_add_on_one_value() {
    assert_eq!(
        run(vec![Operation::PUSH32(1), Operation::ADD, Operation::RETURN]),
        Err(VmError::StackUnderflow)
    );
}

#[test]
fn execute_division_by_zero() {
    let ops = vec![Operation::PUSH32(5), Operation::PUSH32(0), Operation::DIV, Operation::RETURN];
    assert_eq!(run(ops), Err(VmError::DivisionByZero));
}

#[test]
fn execute_mod_by_zero() {
    let ops = vec![Operation::PUSH32(5), Operation::PUSH32(0), Operation::MOD, Operation::RETURN];
    assert_eq!(run(ops), Err(VmError::DivisionByZero));
}

#[test]
fn execute_stop_without_return() {
    assert_eq!(run(vec![Operation::PUSH32(1), Operation::STOP]), Err(VmError::NoReturnValue));
}

#[test]
fn execute_stop_before_return() {
    let ops = vec![Operation::PUSH32(1), Operation::STOP, Operation::RETURN];
    assert_eq!(run(ops), Err(VmError::NoReturnValue));
}

#[test]
fn execute_return_ignores_rest() {
    assert_eq!(run(vec![Operation::PUSH32(9), Operation::RETURN]), Ok(9));
    let ops = vec![
        Operation::PUSH32(9),
        Operation::RETURN,
        Operation::ADD,
        Operation::PUSH32(0),
        Operation::DIV,
        Operation::STOP,
    ];
    assert_eq!(run(ops), Ok(9));
}

#[test]
fn execute_empty_program() {
    assert_eq!(run(vec![]), Err(VmError::NoReturnValue));
}

#[test]
fn execute_exhausted_without_return() {
    assert_eq!(run(vec![Operation::PUSH32(1), Operation::PUSH32(2)]), Err(VmError::NoReturnValue));
}

#[test]
fn execute_return_on_empty_stack() {
    assert_eq!(run(vec![Operation::RETURN]), Err(VmError::StackUnderflow));
}

#[test]
fn execute_pop() {
    let ops = vec![Operation::PUSH32(1), Operation::PUSH32(2), Operation::POP, Operation::RETURN];
    assert_eq!(run(ops), Ok(1));
    assert_eq!(run(vec![Operation::POP, Operation::RETURN]), Err(VmError::StackUnderflow));
}

#[test]
fn execute_operand_order() {
    // the top of the stack is the second operand
    let sub = vec![Operation::PUSH32(10), Operation::PUSH32(3), Operation::SUB, Operation::RETURN];
    assert_eq!(run(sub), Ok(7));
    let div = vec![Operation::PUSH32(17), Operation::PUSH32(3), Operation::DIV, Operation::RETURN];
    assert_eq!(run(div), Ok(5));
    let rem = vec![Operation::PUSH32(17), Operation::PUSH32(3), Operation::MOD, Operation::RETURN];
    assert_eq!(run(rem), Ok(2));
    let exp = vec![Operation::PUSH32(2), Operation::PUSH32(10), Operation::EXP, Operation::RETURN];
    assert_eq!(run(exp), Ok(1024));
}

#[test]
fn arithmetic_wraps_around() {
    assert_eq!(apply_binary(BinaryOp::Add, u32::MAX, 1), Ok(0));
    assert_eq!(apply_binary(BinaryOp::Sub, 3, 5), Ok(u32::MAX - 1));
    assert_eq!(apply_binary(BinaryOp::Mul, 0x1_0000, 0x1_0000), Ok(0));
    assert_eq!(apply_binary(BinaryOp::Mul, 0x1_0001, 0x1_0000), Ok(0x1_0000));
    assert_eq!(apply_binary(BinaryOp::Exp, 2, 32), Ok(0));
    assert_eq!(apply_binary(BinaryOp::Exp, 2, 31), Ok(0x8000_0000));
    assert_eq!(apply_binary(BinaryOp::Exp, 3, 40), Ok(3u32.wrapping_pow(40)));
    assert_eq!(apply_binary(BinaryOp::Exp, 7, 0), Ok(1));
    assert_eq!(apply_binary(BinaryOp::Exp, 0, 0), Ok(1));
    assert_eq!(apply_binary(BinaryOp::Exp, 0, 5), Ok(0));
    assert_eq!(apply_binary(BinaryOp::Exp, 1, u32::MAX), Ok(1));
    assert_eq!(apply_binary(BinaryOp::Exp, u32::MAX, u32::MAX), Ok(u32::MAX));
}

#[test]
fn binary_op_on_stack() {
    let mut stack = vec![8, 5, 3];
    assert_eq!(binary_op(&mut stack, BinaryOp::Sub), Ok(()));
    assert_eq!(stack, vec![8, 2]);
    let mut short = vec![4];
    assert_eq!(binary_op(&mut short, BinaryOp::Add), Err(VmError::StackUnderflow));
    assert_eq!(short, vec![4]);
    let mut zero = vec![6, 0];
    assert_eq!(binary_op(&mut zero, BinaryOp::Mod), Err(VmError::DivisionByZero));
    assert_eq!(zero, vec![6, 0]);
}

#[test]
fn run_program_bytes() {
    assert_eq!(run_program(&[0x7F, 0, 0, 0, 3, 0x7F, 0, 0, 0, 4, 0x01, 0xF3]), Ok(7));
    assert_eq!(run_program(&[0x05]), Err(VmError::InvalidOpcode(5, 0)));
}

#[test]
fn run_hex_three_plus_four() {
    assert_eq!(run_hex_program("7F000000037F0000000401F3"), Ok(7));
}

#[test]
fn run_hex_868() {
    assert_eq!(run_hex_program("7F000000897F0000002C017F00000005027F0000002503F3"), Ok(868));
    assert_eq!(run_hex_program("7f000000897f0000002c017f00000005027f0000002503f3"), Ok(868));
}

#[test]
fn run_hex_rejects_bad_text() {
    assert_eq!(run_hex_program("7"), Err(VmError::InvalidHex));
    assert_eq!(run_hex_program("zz"), Err(VmError::InvalidHex));
    assert_eq!(run_hex_program("7F00000009G3"), Err(VmError::InvalidHex));
}

#[test]
fn run_hex_empty_text() {
    assert_eq!(run_hex_program(""), Err(VmError::NoReturnValue));
}
