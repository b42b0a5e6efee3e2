//! Decoding a byte stream into instructions, and the inverse encoding.
use vstd::prelude::*;
use byteorder::ByteOrder;
use crate::instruction::{
    Operation, VmError, OP_STOP, OP_ADD, OP_MUL, OP_SUB, OP_DIV, OP_MOD, OP_EXP, OP_POP,
    OP_PUSH32, OP_RETURN, opcode_of, be_value, be_bytes, op_bytes, encode_spec, single_byte_op,
    is_opcode, single_byte_operation, lemma_be_value_of_bytes,
};

verus! {

/// What decoding `b` from offset `i` to its end gives: the instructions in
/// order, or the first error met.
pub open spec fn decode_at(b: Seq<u8>, i: int) -> Result<Seq<Operation>, VmError>
    decreases b.len() - i,
{
    if i < 0 || i >= b.len() {
        Ok(seq![])
    } else if b[i] == OP_PUSH32 {
        if i + 5 > b.len() {
            Err(VmError::TruncatedOperand(i as usize))
        } else {
            let op = Operation::PUSH32(be_value(b.subrange(i + 1, i + 5)) as u32);
            prepend(seq![op], decode_at(b, i + 5))
        }
    } else {
        match single_byte_op(b[i]) {
            Some(op) => prepend(seq![op], decode_at(b, i + 1)),
            None => Err(VmError::InvalidOpcode(b[i], i as usize)),
        }
    }
}

/// `r` with `p` put in front of the instructions, if it is a success.
pub open spec fn prepend(p: Seq<Operation>, r: Result<Seq<Operation>, VmError>) -> Result<
    Seq<Operation>,
    VmError,
> {
    match r {
        Ok(s) => Ok(p + s),
        Err(e) => Err(e),
    }
}

/// What decoding a whole byte stream gives.
pub open spec fn decode_spec(b: Seq<u8>) -> Result<Seq<Operation>, VmError> {
    decode_at(b, 0)
}

/// Relies on byteorder's `BigEndian::read_u32`, which reads the first four
/// bytes of a slice most significant first (and panics on fewer).
#[verifier::external_body]
fn read_be_u32(bytes: &[u8], at: usize) -> (r: u32)
    requires
        at + 4 <= bytes@.len(),
    ensures
        r as int == be_value(bytes@.subrange(at as int, at + 4)),
{
    byteorder::BigEndian::read_u32(&bytes[at..at + 4])
}

/// Decodes `rem` from offset `i` to its end and appends the instructions to
/// `ops`. On an error `ops` is left as it was.
pub fn parse_loop(ops: &mut Vec<Operation>, rem: &[u8], i: usize) -> (r: Result<(), VmError>)
    requires
        i <= rem@.len(),
    ensures
        match decode_at(rem@, i as int) {
            Ok(s) => r is Ok && final(ops)@ == old(ops)@ + s,
            Err(e) => r == Err::<(), VmError>(e) && final(ops)@ == old(ops)@,
        },
{
    let mut out: Vec<Operation> = Vec::new();
    let mut pos: usize = i;
    while pos < rem.len()
        invariant
            i <= pos <= rem@.len(),
            decode_at(rem@, i as int) == prepend(out@, decode_at(rem@, pos as int)),
        decreases rem@.len() - pos,
    {
        let b = rem[pos];
        let op;
        if b == OP_PUSH32 {
            if rem.len() - pos < 5 {
                return Err(VmError::TruncatedOperand(pos));
            }
            let v = read_be_u32(rem, pos + 1);
            op = Operation::PUSH32(v);
            proof {
                assert(decode_at(rem@, pos as int) == prepend(seq![op], decode_at(rem@, pos + 5)));
            }
            pos = pos + 5;
        } else {
            match single_byte_operation(b) {
                Some(o) => {
                    op = o;
                    pos = pos + 1;
                },
                None => {
                    return Err(VmError::InvalidOpcode(b, pos));
                },
            }
        }
        proof {
            match decode_at(rem@, pos as int) {
                Ok(s) => assert(out@.push(op) + s =~= out@ + (seq![op] + s)),
                Err(_) => {},
            }
        }
        out.push(op);
    }
    let mut k: usize = 0;
    let ghost start = ops@;
    while k < out.len()
        invariant
            k <= out@.len(),
            ops@ == start + out@.subrange(0, k as int),
        decreases out@.len() - k,
    {
        ops.push(out[k]);
        k = k + 1;
        proof {
            assert(out@.subrange(0, k as int) =~= out@.subrange(0, k - 1).push(out@[k - 1]));
        }
    }
    proof {
        assert(out@.subrange(0, k as int) =~= out@);
        assert(out@ + seq![] =~= out@);
    }
    Ok(())
}

/// Decodes a whole byte stream into its instructions.
pub fn decode(bytes: &[u8]) -> (r: Result<Vec<Operation>, VmError>)
    ensures
        match decode_spec(bytes@) {
            Ok(s) => r matches Ok(v) && v@ == s,
            Err(e) => r == Err::<Vec<Operation>, VmError>(e),
        },
{
    let mut ops: Vec<Operation> = Vec::new();
    match parse_loop(&mut ops, bytes, 0) {
        Ok(()) => {
            proof {
                if let Ok(s) = decode_spec(bytes@) {
                    assert(seq![] + s =~= s);
                }
            }
            Ok(ops)
        },
        Err(e) => Err(e),
    }
}

/// `encode_spec` of a program with one more instruction at its end.
proof fn lemma_encode_push(s: Seq<Operation>, op: Operation)
    ensures
        encode_spec(s.push(op)) == encode_spec(s) + op_bytes(op),
    decreases s.len(),
{
    if s.len() == 0 {
        assert(s.push(op).drop_first() =~= seq![]);
        assert(encode_spec(seq![]) == Seq::<u8>::empty());
        assert(op_bytes(op) + seq![] =~= op_bytes(op));
        assert(seq![] + op_bytes(op) =~= op_bytes(op));
    } else {
        assert(s.push(op).drop_first() =~= s.drop_first().push(op));
        assert(s.push(op)[0] == s[0]);
        lemma_encode_push(s.drop_first(), op);
        assert(op_bytes(s[0]) + (encode_spec(s.drop_first()) + op_bytes(op)) =~= (op_bytes(s[0])
            + encode_spec(s.drop_first())) + op_bytes(op));
    }
}

/// Encodes a program as bytes: each opcode, and after a push its operand in
/// four big-endian bytes.
pub fn encode_program(ops: &Vec<Operation>) -> (r: Vec<u8>)
    requires
        ops@.len() * 5 <= usize::MAX,
    ensures
        r@ == encode_spec(ops@),
{
    let mut out: Vec<u8> = Vec::new();
    let mut k: usize = 0;
    while k < ops.len()
        invariant
            k <= ops@.len(),
            ops@.len() * 5 <= usize::MAX,
            out@ == encode_spec(ops@.subrange(0, k as int)),
            out@.len() <= 5 * k,
        decreases ops@.len() - k,
    {
        let op = ops[k];
        let ghost before = out@;
        match op {
            Operation::PUSH32(v) => {
                out.push(OP_PUSH32);
                out.push((v / 0x1000000) as u8);
                out.push((v / 0x10000 % 0x100) as u8);
                out.push((v / 0x100 % 0x100) as u8);
                out.push((v % 0x100) as u8);
            },
            _ => {
                out.push(opcode(op));
            },
        }
        proof {
            assert(out@ =~= before + op_bytes(op));
            assert(ops@.subrange(0, k + 1) =~= ops@.subrange(0, k as int).push(op));
            lemma_encode_push(ops@.subrange(0, k as int), op);
        }
        k = k + 1;
    }
    proof {
        assert(ops@.subrange(0, k as int) =~= ops@);
    }
    out
}

/// The opcode byte of an instruction.
pub fn opcode(op: Operation) -> (r: u8)
    ensures
        r == opcode_of(op),
{
    match op {
        Operation::STOP => OP_STOP,
        Operation::ADD => OP_ADD,
        Operation::MUL => OP_MUL,
        Operation::SUB => OP_SUB,
        Operation::DIV => OP_DIV,
        Operation::MOD => OP_MOD,
        Operation::EXP => OP_EXP,
        Operation::POP => OP_POP,
        Operation::PUSH32(_) => OP_PUSH32,
        Operation::RETURN => OP_RETURN,
    }
}

/// Decoding from where an encoded program starts reads exactly that program.
proof fn lemma_decode_after(p: Seq<u8>, ops: Seq<Operation>)
    ensures
        decode_at(p + encode_spec(ops), p.len() as int) == Ok::<Seq<Operation>, VmError>(ops),
    decreases ops.len(),
{
    let b = p + encode_spec(ops);
    if ops.len() == 0 {
        assert(b =~= p);
        assert(ops =~= Seq::<Operation>::empty());
    } else {
        let op = ops[0];
        let rest = ops.drop_first();
        let q = p + op_bytes(op);
        assert(b =~= q + encode_spec(rest));
        lemma_decode_after(q, rest);
        assert(b[p.len() as int] == opcode_of(op));
        if let Operation::PUSH32(v) = op {
            assert(b.subrange(p.len() as int + 1, p.len() as int + 5) =~= be_bytes(v));
            lemma_be_value_of_bytes(v);
        }
        assert(decode_at(b, p.len() as int) == prepend(seq![op], decode_at(b, q.len() as int)));
        assert(seq![op] + rest =~= ops);
    }
}

/// Decoding the encoding of any program gives that program back.
pub proof fn lemma_round_trip(ops: Seq<Operation>)
    ensures
        decode_spec(encode_spec(ops)) == Ok::<Seq<Operation>, VmError>(ops),
{
    lemma_decode_after(seq![], ops);
    assert(seq![] + encode_spec(ops) =~= encode_spec(ops));
}

/// A byte stream made only of opcodes, each push followed by its four
/// operand bytes, decodes successfully into one instruction per opcode.
pub proof fn lemma_decode_count(ops: Seq<Operation>)
    ensures
        decode_spec(encode_spec(ops)) is Ok,
        decode_spec(encode_spec(ops))->Ok_0.len() == ops.len(),
{
    lemma_round_trip(ops);
}

/// A stream whose first byte is no opcode fails with that byte at offset 0.
pub proof fn lemma_invalid_first_byte(b: Seq<u8>)
    requires
        b.len() > 0,
        !is_opcode(b[0]),
    ensures
        decode_spec(b) == Err::<Seq<Operation>, VmError>(VmError::InvalidOpcode(b[0], 0)),
{
}

/// A stream that opens with a push followed by fewer than four bytes fails
/// with a truncated operand at offset 0.
pub proof fn lemma_truncated_first_push(b: Seq<u8>)
    requires
        0 < b.len() < 5,
        b[0] == OP_PUSH32,
    ensures
        decode_spec(b) == Err::<Seq<Operation>, VmError>(VmError::TruncatedOperand(0)),
{
}

} // verus!
