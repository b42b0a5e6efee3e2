//! The whole pipeline: program text or bytes in, one value or one error out.
use vstd::prelude::*;
use crate::instruction::VmError;
use crate::decoder::{decode, decode_spec};
use crate::executor::{execute_program, run_spec};

verus! {

#[verifier::external_type_specification]
#[verifier::external_body]
pub struct ExFromHexError(hex::FromHexError);

/// The value of a hexadecimal digit, either case.
pub open spec fn hex_digit(c: char) -> Option<int> {
    if '0' <= c && c <= '9' {
        Some(c as int - '0' as int)
    } else if 'a' <= c && c <= 'f' {
        Some(c as int - 'a' as int + 10)
    } else if 'A' <= c && c <= 'F' {
        Some(c as int - 'A' as int + 10)
    } else {
        None
    }
}

/// Whether a text is an even number of hexadecimal digits.
pub open spec fn is_hex_text(s: Seq<char>) -> bool {
    &&& s.len() % 2 == 0
    &&& forall|i: int| 0 <= i < s.len() ==> (#[trigger] hex_digit(s[i])) is Some
}

/// The bytes that a text of hexadecimal digit pairs spells, high digit first.
pub open spec fn hex_bytes(s: Seq<char>) -> Seq<u8> {
    Seq::new(
        s.len() / 2,
        |i: int| (hex_digit(s[2 * i])->Some_0 * 16 + hex_digit(s[2 * i + 1])->Some_0) as u8,
    )
}

/// Relies on hex::decode: it accepts exactly the texts of an even number of
/// hexadecimal digits (either case) and gives one byte per pair, high digit
/// first.
#[verifier::external_body]
fn bytes_from_hex(text: &str) -> (r: Result<Vec<u8>, hex::FromHexError>)
    ensures
        r is Ok <==> is_hex_text(text@),
        r matches Ok(b) ==> b@ == hex_bytes(text@),
{
    hex::decode(text)
}

/// Decodes and runs a program given as bytes.
pub fn run_program(bytes: &[u8]) -> (r: Result<u32, VmError>)
    ensures
        r == match decode_spec(bytes@) {
            Ok(ops) => run_spec(ops),
            Err(e) => Err(e),
        },
{
    match decode(bytes) {
        Ok(ops) => execute_program(&ops),
        Err(e) => Err(e),
    }
}

/// Decodes and runs a program given as hexadecimal text. Text that is not an
/// even number of hexadecimal digits gives `InvalidHex`.
pub fn run_hex_program(text: &str) -> (r: Result<u32, VmError>)
    ensures
        !is_hex_text(text@) ==> r == Err::<u32, VmError>(VmError::InvalidHex),
        is_hex_text(text@) ==> r == match decode_spec(hex_bytes(text@)) {
            Ok(ops) => run_spec(ops),
            Err(e) => Err(e),
        },
{
    match bytes_from_hex(text) {
        Ok(bytes) => run_program(bytes.as_slice()),
        Err(_) => Err(VmError::InvalidHex),
    }
}

} // verus!
