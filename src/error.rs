use vstd::prelude::*;
use vstd::string::StringExecFns;

verus! {

/// Why a file, a directory or a field value could not be read.
#[derive(Debug, PartialEq, Eq, Clone, Copy, Structural)]
pub enum TiffReadError {
    /// The first four bytes are neither `II*\0` nor `MM\0*`.
    InvalidMagic,
    /// The header names a first directory that starts inside the header.
    FirstIfdOffsetTooLow,
    /// Fewer bytes were given than the structure being read occupies.
    UnexpectedEnd,
    /// The byte size of a field's values does not fit in a `usize`.
    BufferSizeOverflow,
    /// A value buffer's length differs from the size its type and count give.
    BufferSizeMismatch,
    /// The chain of directories leads back to a directory already read.
    IfdCycle,
    /// A directory was offered at an offset other than the one the chain names next.
    UnexpectedSubfile,
}

/// An error described by a message.
#[derive(Debug)]
pub struct ParseError {
    message: String,
}

impl ParseError {
    pub closed spec fn spec_message(&self) -> Seq<char> {
        self.message@
    }

    pub fn new(message: String) -> (r: ParseError)
        ensures
            r.spec_message() == message@,
    {
        ParseError { message }
    }

    pub fn message(&self) -> (r: &String)
        ensures
            r@ == self.spec_message(),
    {
        &self.message
    }
}

/// The lower-case hexadecimal digit of `n < 16`.
pub open spec fn hex_digit(n: u8) -> char {
    seq!['0', '1', '2', '3', '4', '5', '6', '7', '8', '9', 'a', 'b', 'c', 'd', 'e', 'f'][n as int]
}

/// The characters that stand for byte `c` in an escaped string: `\t`, `\r`,
/// `\n`, `\'`, `\"` and `\\` for those six, printable ASCII as itself, and
/// `\xNN` with two lower-case hex digits for any other byte.
pub open spec fn escaped_byte(c: u8) -> Seq<char> {
    if c == 0x09 {
        seq!['\\', 't']
    } else if c == 0x0D {
        seq!['\\', 'r']
    } else if c == 0x0A {
        seq!['\\', 'n']
    } else if c == 0x27 {
        seq!['\\', '\'']
    } else if c == 0x22 {
        seq!['\\', '"']
    } else if c == 0x5C {
        seq!['\\', '\\']
    } else if 0x20 <= c <= 0x7E {
        seq![c as char]
    } else {
        seq!['\\', 'x', hex_digit(c / 16), hex_digit(c % 16)]
    }
}

/// The escaped form of a byte string: each byte's escape, in order.
pub open spec fn escaped_bytes(b: Seq<u8>) -> Seq<char>
    decreases b.len(),
{
    if b.len() == 0 {
        Seq::empty()
    } else {
        escaped_bytes(b.drop_last()) + escaped_byte(b.last())
    }
}

/// Relies on std::ascii::escape_default: the escape of one byte, as its
/// documentation lists it.
#[verifier::external_body]
fn escape_byte(c: u8) -> (r: String)
    ensures
        r@ == escaped_byte(c),
{
    std::ascii::escape_default(c).to_string()
}

/// A printable rendering of arbitrary bytes, escaping each byte that is not
/// printable ASCII.
pub fn escaped_string_from_bytes(bytes: &[u8]) -> (r: String)
    ensures
        r@ == escaped_bytes(bytes@),
{
    let mut r = String::new();
    let mut i: usize = 0;
    while i < bytes.len()
        invariant
            i <= bytes@.len(),
            r@ == escaped_bytes(bytes@.subrange(0, i as int)),
        decreases bytes@.len() - i,
    {
        let piece = escape_byte(bytes[i]);
        r.append(piece.as_str());
        assert(bytes@.subrange(0, i + 1).drop_last() =~= bytes@.subrange(0, i as int));
        i += 1;
    }
    assert(bytes@.subrange(0, i as int) =~= bytes@);
    r
}

} // verus!
