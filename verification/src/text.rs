//! Row titles arrive as runtime string records: a header giving the byte
//! length, followed by the UTF-8 bytes. The shell reads the bytes out of
//! memory; this decodes them.
use vstd::prelude::*;

verus! {

/// What `String::from_utf8_lossy` makes of `bytes`: the text they encode,
/// with each invalid sequence replaced by U+FFFD.
pub uninterp spec fn utf8_lossy(bytes: Seq<u8>) -> Seq<char>;

/// Whether every byte is ASCII.
pub open spec fn is_ascii(bytes: Seq<u8>) -> bool {
    forall|i: int| 0 <= i < bytes.len() ==> #[trigger] bytes[i] < 0x80
}

/// Decodes `bytes` with `String::from_utf8_lossy` (std). Trusted: the result
/// is what that function returns, and ASCII bytes (valid UTF-8, each its
/// own character) decode to the characters with the same codes. The rest
/// of the decoding — multi-byte sequences and the replacement of invalid
/// ones — is left to the name `utf8_lossy`.
#[verifier::external_body]
fn decode_lossy(bytes: &[u8]) -> (s: String)
    ensures
        s@ == utf8_lossy(bytes@),
        is_ascii(bytes@) ==> s@ == bytes@.map_values(|b: u8| b as char),
{
    String::from_utf8_lossy(bytes).into_owned()
}

/// The text of a string record whose bytes are `bytes`; a null record
/// (`None`) reads as the empty string.
pub fn str_from_header(bytes: Option<&[u8]>) -> (s: String)
    ensures
        match bytes {
            None => s@ == Seq::<char>::empty(),
            Some(b) => s@ == utf8_lossy(b@) && (is_ascii(b@) ==> s@ == b@.map_values(
                |x: u8| x as char,
            )),
        },
{
    match bytes {
        None => String::new(),
        Some(b) => decode_lossy(b),
    }
}

} // verus!
