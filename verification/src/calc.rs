//! Reading the calculator's requests: where the operator of an expression
//! stands, what stands on either side of it, and what a datagram asks for.

use vstd::prelude::*;
use vstd::utf8::decode_utf8;
use vstd::utf8::decode_utf8_split;
use vstd::utf8::encode_utf8;
use vstd::utf8::encode_utf8_decode_utf8;
use vstd::utf8::encode_utf8_valid_utf8;
use vstd::utf8::is_char_boundary;
use vstd::utf8::is_char_boundary_iff_not_is_continuation_byte;
use vstd::utf8::valid_utf8;

use crate::text::copy_of;
use crate::text::has_prefix;
use crate::text::starts_with;
use crate::text::text_of;

verus! {

/// The byte `+`.
pub const PLUS: u8 = 0x2b;

/// The byte `-`.
pub const MINUS: u8 = 0x2d;

/// The word that ends a datagram session.
pub const EXIT: &'static str = "exit";

/// What is answered when an expression holds no operator.
pub open spec fn operator_not_found() -> Seq<char> {
    "Operator not found in expression!"@
}

/// Whether `index` is where `byte` first occurs in `bytes`.
pub open spec fn is_first_occurrence(bytes: Seq<u8>, byte: u8, index: int) -> bool {
    &&& 0 <= index < bytes.len()
    &&& bytes[index] == byte
    &&& forall|j: int| 0 <= j < index ==> bytes[j] != byte
}

/// Whether `byte` occurs nowhere in `bytes`.
pub open spec fn is_absent(bytes: Seq<u8>, byte: u8) -> bool {
    forall|j: int| 0 <= j < bytes.len() ==> bytes[j] != byte
}

/// Whether `index` is where the operator of the expression `bytes`
/// stands: at the first `+` if there is one, else at the first `-`.
pub open spec fn is_operator_index(bytes: Seq<u8>, index: int) -> bool {
    ||| is_first_occurrence(bytes, PLUS, index)
    ||| is_absent(bytes, PLUS) && is_first_occurrence(bytes, MINUS, index)
}

/// Whether the expression `bytes` holds no operator.
pub open spec fn has_no_operator(bytes: Seq<u8>) -> bool {
    is_absent(bytes, PLUS) && is_absent(bytes, MINUS)
}

/// Index of the first occurrence of `byte` in `bytes`.
fn find_byte(bytes: &[u8], byte: u8) -> (found: Option<usize>)
    ensures
        match found {
            Some(index) => is_first_occurrence(bytes@, byte, index as int),
            None => is_absent(bytes@, byte),
        },
{
    let mut index: usize = 0;
    while index < bytes.len()
        invariant
            index <= bytes.len(),
            forall|j: int| 0 <= j < index ==> bytes@[j] != byte,
        decreases bytes.len() - index,
    {
        if bytes[index] == byte {
            return Some(index);
        }
        index += 1;
    }
    None
}

/// Index of the operator of the expression `bytes`.
fn find_operator(bytes: &[u8]) -> (found: Option<usize>)
    ensures
        match found {
            Some(index) => is_operator_index(bytes@, index as int),
            None => has_no_operator(bytes@),
        },
{
    match find_byte(bytes, PLUS) {
        Some(at) => Some(at),
        None => find_byte(bytes, MINUS),
    }
}

/// Byte offset of the operator of `expr` within its UTF-8 text: of the
/// first `+` if it has one, else of the first `-`. An expression with
/// neither is refused.
pub fn get_op_index(expr: String) -> (index: Result<usize, &'static str>)
    ensures
        match index {
            Ok(at) => is_operator_index(encode_utf8(expr@), at as int),
            Err(message) => has_no_operator(encode_utf8(expr@)) && message@
                == operator_not_found(),
        },
{
    match find_operator(expr.as_str().as_bytes()) {
        Some(at) => Ok(at),
        None => Err("Operator not found in expression!"),
    }
}

/// An expression cut at its operator.
#[derive(Debug, PartialEq, Eq)]
pub struct Operands<'a> {
    /// What stands before the operator.
    pub left: &'a str,
    /// The operator: `+` or `-`.
    pub operator: char,
    /// What stands after the operator.
    pub right: &'a str,
}

/// Cuts `expr` at its operator: the first `+` if it has one, else the
/// first `-`. An expression with neither is refused.
pub fn split_expression<'a>(expr: &'a str) -> (parts: Result<Operands<'a>, &'static str>)
    ensures
        match parts {
            Ok(cut) => {
                &&& expr@ == cut.left@ + seq![cut.operator] + cut.right@
                &&& is_operator_index(encode_utf8(expr@), encode_utf8(cut.left@).len() as int)
                &&& cut.operator == '+' || cut.operator == '-'
            },
            Err(message) => has_no_operator(encode_utf8(expr@)) && message@
                == operator_not_found(),
        },
{
    let bytes = expr.as_bytes();
    let at = match find_operator(bytes) {
        Some(at) => at,
        None => {
            return Err("Operator not found in expression!");
        },
    };
    let operator = if bytes[at] == PLUS {
        '+'
    } else {
        '-'
    };
    proof {
        encode_utf8_valid_utf8(expr@);
        is_char_boundary_iff_not_is_continuation_byte(bytes@, at as int);
    }
    let (left, rest) = expr.split_at(at);
    proof {
        encode_utf8_valid_utf8(rest@);
        lemma_boundary_after_ascii(encode_utf8(rest@));
    }
    let (_, right) = rest.split_at(1);
    proof {
        let all = encode_utf8(expr@);
        let tail = encode_utf8(rest@);
        encode_utf8_decode_utf8(expr@);
        encode_utf8_decode_utf8(left@);
        encode_utf8_decode_utf8(rest@);
        encode_utf8_decode_utf8(right@);
        decode_utf8_split(all, at as int);
        decode_utf8_split(tail, 1);
        lemma_decode_ascii(tail.subrange(0, 1));
        assert(tail[0] == all[at as int]);
        assert(expr@ =~= left@ + seq![operator] + right@);
    }
    Ok(Operands { left, operator, right })
}

/// In valid UTF-8 that begins with an ASCII byte, the second byte begins a
/// character too.
proof fn lemma_boundary_after_ascii(bytes: Seq<u8>)
    requires
        valid_utf8(bytes),
        bytes.len() >= 1,
        bytes[0] < 0x80,
    ensures
        is_char_boundary(bytes, 1),
{
    reveal_with_fuel(valid_utf8, 2);
    reveal_with_fuel(is_char_boundary, 2);
}

/// One ASCII byte decodes to the character of the same number.
proof fn lemma_decode_ascii(bytes: Seq<u8>)
    requires
        bytes.len() == 1,
        bytes[0] < 0x80,
    ensures
        valid_utf8(bytes),
        decode_utf8(bytes) == seq![bytes[0] as char],
{
    reveal_with_fuel(valid_utf8, 2);
    reveal_with_fuel(decode_utf8, 2);
    let b = bytes[0];
    assert(b & 0x7f == b) by (bit_vector)
        requires
            b < 0x80,
    ;
    assert(decode_utf8(bytes) =~= seq![bytes[0] as char]);
}

/// What a datagram asks for.
#[derive(Debug, PartialEq, Eq)]
pub enum Request {
    /// To end the session.
    Exit,
    /// To evaluate this expression.
    Evaluate(String),
}

/// Why a datagram holds no request.
#[derive(Debug, Clone, Copy, PartialEq, Eq, Structural)]
pub enum RequestError {
    /// The datagram holds no byte, not even the closing one.
    Empty,
    /// The datagram is not UTF-8 text.
    NotText,
}

/// The request that `datagram` holds. Its last byte closes the datagram
/// and is dropped; the rest ends the session if it begins with `exit`,
/// and is an expression otherwise.
pub fn read_request(datagram: &[u8]) -> (request: Result<Request, RequestError>)
    ensures
        ({
            let line = datagram@.drop_last();
            match request {
                Err(RequestError::Empty) => datagram@.len() == 0,
                Err(RequestError::NotText) => datagram@.len() > 0 && !valid_utf8(line),
                Ok(Request::Exit) => {
                    &&& datagram@.len() > 0
                    &&& valid_utf8(line)
                    &&& has_prefix(line, encode_utf8(EXIT@))
                },
                Ok(Request::Evaluate(expr)) => {
                    &&& datagram@.len() > 0
                    &&& valid_utf8(line)
                    &&& !has_prefix(line, encode_utf8(EXIT@))
                    &&& expr@ == decode_utf8(line)
                },
            }
        }),
{
    if datagram.len() == 0 {
        return Err(RequestError::Empty);
    }
    let mut line = copy_of(datagram);
    line.pop();
    assert(line@ =~= datagram@.drop_last());
    let ends = starts_with(line.as_slice(), EXIT.as_bytes());
    match text_of(line) {
        Ok(expr) => if ends {
            Ok(Request::Exit)
        } else {
            Ok(Request::Evaluate(expr))
        },
        Err(_) => Err(RequestError::NotText),
    }
}

} // verus!
