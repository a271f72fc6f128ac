use vstd::prelude::*;

verus! {

/// All bytes are ASCII.
pub open spec fn all_ascii(bytes: Seq<u8>) -> bool {
    forall|i: int| 0 <= i < bytes.len() ==> bytes[i] < 128
}

/// The characters that ASCII bytes stand for.
pub open spec fn ascii_chars(bytes: Seq<u8>) -> Seq<char> {
    bytes.map_values(|b: u8| b as char)
}

/// Builds a `String` from ASCII bytes.
///
/// Trusted: `String::from_utf8` accepts every ASCII byte sequence (ASCII is
/// valid UTF-8) and the resulting string has one character per byte, the
/// character with that code.
#[verifier::external_body]
pub(crate) fn string_from_ascii(bytes: Vec<u8>) -> (s: String)
    requires
        all_ascii(bytes@),
    ensures
        s@ == ascii_chars(bytes@),
{
    String::from_utf8(bytes).unwrap()
}

} // verus!
