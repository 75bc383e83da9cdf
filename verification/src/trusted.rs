//! The calls into outside crates. Verus reads the contracts below and not the
//! bodies: each contract restates what the crate documents.
use byteorder::{BigEndian, WriteBytesExt};
use hex::ToHex;
use vstd::prelude::*;

verus! {

/// The character that writes `n`, a value below sixteen, as one lower-case
/// hexadecimal digit.
pub open spec fn hex_digit(n: int) -> char {
    if n < 10 {
        ('0' as int + n) as char
    } else {
        ('a' as int + (n - 10)) as char
    }
}

/// A byte as two lower-case hexadecimal digits, the high four bits first.
pub open spec fn hex_of(b: u8) -> Seq<char> {
    seq![hex_digit(b as int / 16), hex_digit(b as int % 16)]
}

/// A 16-bit value as two bytes, the high byte first.
pub open spec fn big_endian(n: u16) -> Seq<u8> {
    seq![(n as int / 256) as u8, (n as int % 256) as u8]
}

/// `hex::ToHex::encode_hex`, on one byte and collected into a `String`.
///
/// Trusted: the crate walks the bytes in order and yields, for each, the digit
/// of its high four bits and then the digit of its low four bits, both taken
/// from `0123456789abcdef`.
#[verifier::external_body]
pub(crate) fn hex_string(b: u8) -> (s: String)
    ensures
        s@ == hex_of(b),
{
    [b].encode_hex::<String>()
}

/// `byteorder::WriteBytesExt::write_u16::<BigEndian>`, into an empty `Vec<u8>`.
///
/// Trusted: the crate appends the two bytes of `n.to_be_bytes()` to the
/// writer, the most significant byte first; writing into a `Vec` cannot fail.
#[verifier::external_body]
pub(crate) fn big_endian_bytes(n: u16) -> (bytes: Vec<u8>)
    ensures
        bytes@ == big_endian(n),
{
    let mut bytes: Vec<u8> = Vec::new();
    let _ = bytes.write_u16::<BigEndian>(n);
    bytes
}

} // verus!
