//! The lines of a response's head: the status line and the header fields,
//! and the lines that frame a chunked body.

use vstd::prelude::*;
use vstd::slice::slice_subrange;

use crate::http1::text::{
    ascii, ascii_bytes, find, first_at, has_prefix, is_digit, is_name, parse_decimal, parse_hexadecimal,
    position, read_decimal, read_hexadecimal, same_name, starts_with, trim, trimmed, SP,
};

verus! {

/// The colon that parts a field's name from its value
pub const COLON: u8 = 58;

/// The semicolon that parts a chunk's size from its extensions
pub const SEMICOLON: u8 = 59;

/// The status that a status line gives.  The line is `HTTP/1.`, one digit,
/// a space and three digits, and either ends there or goes on with a space
/// and a reason; the three digits are the status.
pub open spec fn status_of(line: Seq<u8>) -> Option<u16> {
    if line.len() >= 12 && starts_with(line, ascii("HTTP/1."@)) && is_digit(line[7]) && line[8]
        == SP && is_digit(line[9]) && is_digit(line[10]) && is_digit(line[11]) && (line.len() == 12
        || line[12] == SP) {
        Some(((line[9] - 48) * 100 + (line[10] - 48) * 10 + (line[11] - 48)) as u16)
    } else {
        None
    }
}

/// Read a status line.
pub fn read_status(line: &[u8]) -> (status: Option<u16>)
    ensures
        status == status_of(line@),
{
    proof {
        reveal_strlit("HTTP/1.");
    }
    if line.len() < 12 || !has_prefix(line, ascii_bytes("HTTP/1.")) {
        return None;
    }
    if !digit(line[7]) || line[8] != SP || !digit(line[9]) || !digit(line[10]) || !digit(line[11]) {
        return None;
    }
    if line.len() > 12 && line[12] != SP {
        return None;
    }
    let hundreds = (line[9] - 48) as u16;
    let tens = (line[10] - 48) as u16;
    let ones = (line[11] - 48) as u16;
    Some(hundreds * 100 + tens * 10 + ones)
}

/// Whether a byte is a decimal digit.
fn digit(b: u8) -> (yes: bool)
    ensures
        yes == is_digit(b),
{
    48 <= b && b <= 57
}

/// What a header field says of the body's framing.
#[derive(Debug, Copy, Clone, PartialEq, Eq, Structural)]
pub enum Field {
    /// `Content-Length`: the body has this many bytes.
    Length(u64),
    /// `Transfer-Encoding: chunked`: the body comes in chunks.
    Chunked,
    /// Any other field: nothing.
    Other,
}

/// What a field line says.  The line is a name that is not empty, a colon
/// and a value, which counts without the white space around it.  The names
/// of the two framing fields count in either case.  A `Content-Length` whose
/// value is no decimal number that fits 64 bits, and a `Transfer-Encoding`
/// other than `chunked`, say nothing that can be followed, as a line
/// without a name does.
pub open spec fn field_of(line: Seq<u8>) -> Option<Field> {
    match position(line, COLON) {
        None => None,
        Some(colon) => {
            let name = line.take(colon);
            let value = trim(line.skip(colon + 1));
            if colon == 0 {
                None
            } else if same_name(name, ascii("content-length"@)) {
                match parse_decimal(value, u64::MAX as nat) {
                    Some(length) => Some(Field::Length(length as u64)),
                    None => None,
                }
            } else if same_name(name, ascii("transfer-encoding"@)) {
                if same_name(value, ascii("chunked"@)) {
                    Some(Field::Chunked)
                } else {
                    None
                }
            } else {
                Some(Field::Other)
            }
        },
    }
}

/// Read a field line.
pub fn read_field(line: &[u8]) -> (field: Option<Field>)
    ensures
        field == field_of(line@),
{
    proof {
        reveal_strlit("content-length");
        reveal_strlit("transfer-encoding");
        reveal_strlit("chunked");
    }
    match find(line, COLON) {
        None => None,
        Some(colon) => {
            if colon == 0 {
                return None;
            }
            assert(first_at(line@, COLON, colon as int));
            assert(colon < line.len());
            let name = slice_subrange(line, 0, colon);
            let value = trimmed(slice_subrange(line, colon + 1, line.len()));
            if is_name(name, ascii_bytes("content-length")) {
                match read_decimal(value, u64::MAX) {
                    Some(length) => Some(Field::Length(length)),
                    None => None,
                }
            } else if is_name(name, ascii_bytes("transfer-encoding")) {
                if is_name(value, ascii_bytes("chunked")) {
                    Some(Field::Chunked)
                } else {
                    None
                }
            } else {
                Some(Field::Other)
            }
        },
    }
}

/// What is known of the framing once one more field is read: the length
/// and whether the body is chunked.  A second length that differs from the
/// first cannot be followed.
pub open spec fn framing_with(length: Option<u64>, chunked: bool, field: Field) -> Option<
    (Option<u64>, bool),
> {
    match field {
        Field::Length(n) => if length is Some && length != Some(n) {
            None
        } else {
            Some((Some(n), chunked))
        },
        Field::Chunked => Some((length, true)),
        Field::Other => Some((length, chunked)),
    }
}

/// Take one more field into what is known of the framing.
pub fn add_field(length: Option<u64>, chunked: bool, field: Field) -> (framing: Option<
    (Option<u64>, bool),
>)
    ensures
        framing == framing_with(length, chunked, field),
{
    match field {
        Field::Length(n) => match length {
            Some(m) => if m != n {
                None
            } else {
                Some((Some(n), chunked))
            },
            None => Some((Some(n), chunked)),
        },
        Field::Chunked => Some((length, true)),
        Field::Other => Some((length, chunked)),
    }
}

/// Whether a response has a body to read.  It has none where the request
/// was a `HEAD`, where the status is below 200 or is 204 or 304, and where
/// the head declares neither a length nor chunks.
pub open spec fn declares_body(head_only: bool, status: u16, length: Option<u64>, chunked: bool)
    -> bool {
    !head_only && status >= 200 && status != 204 && status != 304 && (chunked || length is Some)
}

/// Whether a response has a body to read.
pub fn has_body(head_only: bool, status: u16, length: Option<u64>, chunked: bool) -> (yes: bool)
    ensures
        yes == declares_body(head_only, status, length, chunked),
{
    !head_only && status >= 200 && status != 204 && status != 304 && (chunked || length.is_some())
}

/// The size that the first line of a chunk gives: hexadecimal digits, with
/// white space around them allowed, up to the end of the line or to the
/// semicolon that begins the chunk's extensions.  A size that with the two
/// bytes of a line break is beyond what a buffer can hold counts as none.
pub open spec fn chunk_size_of(line: Seq<u8>) -> Option<usize> {
    let digits = match position(line, SEMICOLON) {
        Some(end) => line.take(end),
        None => line,
    };
    match parse_hexadecimal(trim(digits), (usize::MAX - 2) as nat) {
        Some(size) => Some(size as usize),
        None => None,
    }
}

/// Read the first line of a chunk.
pub fn read_chunk_size(line: &[u8]) -> (size: Option<usize>)
    ensures
        size == chunk_size_of(line@),
{
    let digits = match find(line, SEMICOLON) {
        Some(end) => slice_subrange(line, 0, end),
        None => {
            assert(line@.take(line@.len() as int) =~= line@);
            line
        },
    };
    read_hexadecimal(trimmed(digits), usize::MAX - 2)
}

} // verus!
