//! Running a sequence of instructions against an operand stack.
//!
//! Arithmetic wraps around modulo 2^32: `ADD`, `SUB`, `MUL` and `EXP` never
//! fail, and `DIV` and `MOD` fail only on a zero second operand.
use vstd::prelude::*;
use vstd::arithmetic::power::{
    pow, lemma_pow_adds, lemma_pow_multiplies, lemma_pow_mod_noop, lemma_square_is_pow2, lemma_pow1,
    lemma_pow0,
};
use vstd::arithmetic::div_mod::{lemma_mul_mod_noop_left, lemma_mul_mod_noop_right};
use crate::instruction::{Operation, VmError};

verus! {

/// The instructions that take two values from the stack and push one.
#[derive(Debug, Clone, Copy, PartialEq, Eq, Structural)]
pub enum BinaryOp {
    Add,
    Mul,
    Sub,
    Div,
    Mod,
    Exp,
}

/// `a OP b` on 32-bit words, wrapping around modulo 2^32.
pub open spec fn apply_spec(f: BinaryOp, a: u32, b: u32) -> Result<u32, VmError> {
    match f {
        BinaryOp::Add => Ok(((a + b) % 0x1_0000_0000) as u32),
        BinaryOp::Mul => Ok(((a * b) % 0x1_0000_0000) as u32),
        BinaryOp::Sub => Ok(((a - b) % 0x1_0000_0000) as u32),
        BinaryOp::Div => if b == 0 {
            Err(VmError::DivisionByZero)
        } else {
            Ok((a / b) as u32)
        },
        BinaryOp::Mod => if b == 0 {
            Err(VmError::DivisionByZero)
        } else {
            Ok((a % b) as u32)
        },
        BinaryOp::Exp => Ok((pow(a as int, b as nat) % 0x1_0000_0000) as u32),
    }
}

/// The stack after a binary instruction: the value below the top is the
/// first operand, the top value the second (so `PUSH32 a; PUSH32 b; SUB`
/// computes `a - b`), and both are replaced by the result.
pub open spec fn binary_step(f: BinaryOp, stack: Seq<u32>) -> Result<Seq<u32>, VmError> {
    if stack.len() < 2 {
        Err(VmError::StackUnderflow)
    } else {
        match apply_spec(f, stack[stack.len() - 2], stack.last()) {
            Ok(c) => Ok(stack.drop_last().drop_last().push(c)),
            Err(e) => Err(e),
        }
    }
}

/// The binary operation an instruction performs, if it is one.
pub open spec fn binary_of(op: Operation) -> Option<BinaryOp> {
    match op {
        Operation::ADD => Some(BinaryOp::Add),
        Operation::MUL => Some(BinaryOp::Mul),
        Operation::SUB => Some(BinaryOp::Sub),
        Operation::DIV => Some(BinaryOp::Div),
        Operation::MOD => Some(BinaryOp::Mod),
        Operation::EXP => Some(BinaryOp::Exp),
        _ => None,
    }
}

/// The outcome of running `ops` from instruction `k` on `stack`.
pub open spec fn run_from(ops: Seq<Operation>, k: int, stack: Seq<u32>) -> Result<u32, VmError>
    decreases ops.len() - k,
{
    if k < 0 || k >= ops.len() {
        Err(VmError::NoReturnValue)
    } else if let Some(f) = binary_of(ops[k]) {
        match binary_step(f, stack) {
            Ok(s) => run_from(ops, k + 1, s),
            Err(e) => Err(e),
        }
    } else {
        match ops[k] {
            Operation::PUSH32(v) => run_from(ops, k + 1, stack.push(v)),
            Operation::POP => if stack.len() == 0 {
                Err(VmError::StackUnderflow)
            } else {
                run_from(ops, k + 1, stack.drop_last())
            },
            Operation::RETURN => if stack.len() == 0 {
                Err(VmError::StackUnderflow)
            } else {
                Ok(stack.last())
            },
            // STOP: the run ends without a value
            _ => Err(VmError::NoReturnValue),
        }
    }
}

/// The outcome of running a whole program from an empty stack.
pub open spec fn run_spec(ops: Seq<Operation>) -> Result<u32, VmError> {
    run_from(ops, 0, seq![])
}

/// One squaring step of exponentiation, taken modulo `m`.
proof fn lemma_exp_step(c: int, base: int, e: nat, m: int)
    requires
        m > 0,
    ensures
        (c * pow((base * base) % m, e / 2)) % m == (c * pow(base, 2 * (e / 2))) % m,
        pow(base, e) == if e % 2 == 1 {
            base * pow(base, 2 * (e / 2))
        } else {
            pow(base, 2 * (e / 2))
        },
{
    let h = e / 2;
    lemma_pow_mod_noop(base * base, h, m);
    lemma_mul_mod_noop_right(c, pow((base * base) % m, h), m);
    lemma_mul_mod_noop_right(c, pow(base * base, h), m);
    lemma_square_is_pow2(base);
    lemma_pow_multiplies(base, 2, h);
    if e % 2 == 1 {
        lemma_pow_adds(base, 1, 2 * h);
        lemma_pow1(base);
        assert(e == 1 + 2 * h);
    } else {
        assert(e == 2 * h);
    }
}

/// `a` to the power `b`, modulo 2^32, by repeated squaring.
fn wrapping_exp(a: u32, b: u32) -> (r: u32)
    ensures
        r as int == pow(a as int, b as nat) % 0x1_0000_0000,
{
    let ghost m: int = 0x1_0000_0000;
    let mut acc: u32 = 1;
    let mut base: u32 = a;
    let mut e: u32 = b;
    while e > 0
        invariant
            m == 0x1_0000_0000,
            (acc as int * pow(base as int, e as nat)) % m == pow(a as int, b as nat) % m,
        decreases e,
    {
        proof {
            lemma_exp_step(acc as int, base as int, e as nat, m);
            lemma_exp_step((acc as int * base as int) % m, base as int, e as nat, m);
            lemma_mul_mod_noop_left(acc as int * base as int, pow(base as int, 2 * (e / 2) as nat), m);
            assert((acc as int * base as int) * pow(base as int, 2 * (e / 2) as nat) == acc as int
                * (base as int * pow(base as int, 2 * (e / 2) as nat))) by (nonlinear_arith);
        }
        if e % 2 == 1 {
            acc = acc.wrapping_mul(base);
        }
        base = base.wrapping_mul(base);
        e = e / 2;
    }
    proof {
        lemma_pow0(base as int);
    }
    acc
}

/// `a OP b` on 32-bit words, wrapping around modulo 2^32.
pub fn apply_binary(f: BinaryOp, a: u32, b: u32) -> (r: Result<u32, VmError>)
    ensures
        r == apply_spec(f, a, b),
{
    match f {
        BinaryOp::Add => Ok(a.wrapping_add(b)),
        BinaryOp::Mul => Ok(a.wrapping_mul(b)),
        BinaryOp::Sub => Ok(a.wrapping_sub(b)),
        BinaryOp::Div => if b == 0 {
            Err(VmError::DivisionByZero)
        } else {
            Ok(a / b)
        },
        BinaryOp::Mod => if b == 0 {
            Err(VmError::DivisionByZero)
        } else {
            Ok(a % b)
        },
        BinaryOp::Exp => Ok(wrapping_exp(a, b)),
    }
}

/// The binary operation an instruction performs, if it is one.
pub fn binary_operation(op: Operation) -> (r: Option<BinaryOp>)
    ensures
        r == binary_of(op),
{
    match op {
        Operation::ADD => Some(BinaryOp::Add),
        Operation::MUL => Some(BinaryOp::Mul),
        Operation::SUB => Some(BinaryOp::Sub),
        Operation::DIV => Some(BinaryOp::Div),
        Operation::MOD => Some(BinaryOp::Mod),
        Operation::EXP => Some(BinaryOp::Exp),
        _ => None,
    }
}

/// Pops the second operand `b` and then the first `a`, and pushes `a OP b`.
/// On an error the stack is left as it was.
pub fn binary_op(queue: &mut Vec<u32>, f: BinaryOp) -> (r: Result<(), VmError>)
    ensures
        match binary_step(f, old(queue)@) {
            Ok(s) => r is Ok && final(queue)@ == s,
            Err(e) => r == Err::<(), VmError>(e) && final(queue)@ == old(queue)@,
        },
{
    let n = queue.len();
    if n < 2 {
        return Err(VmError::StackUnderflow);
    }
    let b = queue[n - 1];
    let a = queue[n - 2];
    let c = match apply_binary(f, a, b) {
        Ok(c) => c,
        Err(e) => return Err(e),
    };
    queue.pop();
    queue.pop();
    queue.push(c);
    Ok(())
}

/// Runs a program from an empty stack and returns the value of its first
/// `RETURN`, or the error that ended it.
pub fn execute_program(operations: &Vec<Operation>) -> (r: Result<u32, VmError>)
    ensures
        r == run_spec(operations@),
{
    let mut stack: Vec<u32> = Vec::new();
    let mut k: usize = 0;
    while k < operations.len()
        invariant
            k <= operations@.len(),
            run_spec(operations@) == run_from(operations@, k as int, stack@),
        decreases operations@.len() - k,
    {
        let op = operations[k];
        match binary_operation(op) {
            Some(f) => {
                if let Err(e) = binary_op(&mut stack, f) {
                    return Err(e);
                }
            },
            None => match op {
                Operation::PUSH32(v) => {
                    stack.push(v);
                },
                Operation::POP => {
                    if stack.pop().is_none() {
                        return Err(VmError::StackUnderflow);
                    }
                },
                Operation::RETURN => {
                    return match stack.pop() {
                        Some(v) => Ok(v),
                        None => Err(VmError::StackUnderflow),
                    };
                },
                // STOP
                _ => {
                    return Err(VmError::NoReturnValue);
                },
            },
        }
        k = k + 1;
    }
    Err(VmError::NoReturnValue)
}

/// Running `p` from instruction `k` does not look past a final `RETURN`.
proof fn lemma_run_ignores_tail(p: Seq<Operation>, tail: Seq<Operation>, k: int, stack: Seq<u32>)
    requires
        0 <= k < p.len(),
        p.last() == Operation::RETURN,
    ensures
        run_from(p + tail, k, stack) == run_from(p, k, stack),
    decreases p.len() - k,
{
    assert((p + tail)[k] == p[k]);
    if k + 1 < p.len() {
        if let Some(f) = binary_of(p[k]) {
            if let Ok(s) = binary_step(f, stack) {
                lemma_run_ignores_tail(p, tail, k + 1, s);
            }
        } else {
            match p[k] {
                Operation::PUSH32(v) => lemma_run_ignores_tail(p, tail, k + 1, stack.push(v)),
                Operation::POP => if stack.len() > 0 {
                    lemma_run_ignores_tail(p, tail, k + 1, stack.drop_last());
                },
                _ => {},
            }
        }
    }
}

/// A program that ends in `RETURN` gives the same outcome whatever
/// instructions follow it.
pub proof fn lemma_return_ignores_rest(p: Seq<Operation>, tail: Seq<Operation>)
    requires
        p.len() > 0,
        p.last() == Operation::RETURN,
    ensures
        run_spec(p + tail) == run_spec(p),
{
    lemma_run_ignores_tail(p, tail, 0, seq![]);
}

} // verus!
