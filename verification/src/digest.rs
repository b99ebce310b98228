//! Checksum support for the chunk writer.
//!
//! The finalize step of an upload records a 128-bit digest of the file's
//! bytes, rendered as 32 lowercase hexadecimal characters. The digest value
//! itself is not modeled: it is named by [`md5_hex_of`], and contracts speak
//! of that name.

use vstd::prelude::*;

verus! {

/// The lowercase hexadecimal MD5 digest of a byte sequence. The digest
/// depends on the bytes alone; its value is not modeled here.
pub uninterp spec fn md5_hex_of(bytes: Seq<u8>) -> Seq<char>;

/// Whether `c` is a lowercase hexadecimal digit.
pub open spec fn is_lower_hex_digit(c: char) -> bool {
    ('0' <= c && c <= '9') || ('a' <= c && c <= 'f')
}

/// Relies on the md-5 crate's `Md5` hasher (through `digest::Digest`): the
/// 16-byte digest is a function of the input bytes alone, rendered here as
/// two lowercase hexadecimal digits per byte, 32 characters in all.
#[verifier::external_body]
pub(crate) fn md5_hex(bytes: &[u8]) -> (r: String)
    ensures
        r@ == md5_hex_of(bytes@),
        r@.len() == 32,
        forall|i: int| 0 <= i < r@.len() ==> is_lower_hex_digit(r@[i]),
{
    let digest = <md5::Md5 as md5::Digest>::digest(bytes);
    let mut r = String::new();
    for b in digest.iter() {
        r.push_str(&format!("{:02x}", b));
    }
    r
}

} // verus!
