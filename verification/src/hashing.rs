use sha2::{Digest, Sha256};
use vstd::prelude::*;

verus! {

/// The lowercase hexadecimal rendering of the SHA-256 digest of the UTF-8
/// bytes of a character sequence. The digest is a function of its input
/// alone; its value is not modelled here.
pub uninterp spec fn sha256_hex(s: Seq<char>) -> Seq<char>;

/// Relies on sha2::Sha256 (new / update / finalize): SHA-256 is a
/// deterministic function of the input bytes alone, and its 32-byte digest
/// is rendered as 64 lowercase hexadecimal characters.
#[verifier::external_body]
pub(crate) fn sha256_hex_of(s: &str) -> (r: String)
    ensures
        r@ == sha256_hex(s@),
        r@.len() == 64,
{
    let mut hasher = Sha256::new();
    hasher.update(s.as_bytes());
    format!("{:x}", hasher.finalize())
}

} // verus!
