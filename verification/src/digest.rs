use sha2::Digest;
use sha2::Sha256;
use vstd::prelude::*;

verus! {

/// Number of characters in a password digest: two hexadecimal digits for each
/// of the 32 bytes of a SHA-256 output.
pub const DIGEST_LEN: usize = 64;

/// The SHA-256 digest of the UTF-8 encoding of `password`, written as
/// lowercase hexadecimal text.
pub uninterp spec fn sha256_hex(password: Seq<char>) -> Seq<char>;

/// Trusted: feeds the password's bytes to `sha2::Sha256` (`Digest::new`,
/// `Digest::update`, `Digest::finalize`) and formats the 32-byte output with
/// `{:x}`. The contract claims that the text returned depends on the password
/// alone, and that it is 64 characters long.
#[verifier::external_body]
pub(crate) fn hash_password(password: &str) -> (digest: String)
    ensures
        digest@ == sha256_hex(password@),
        digest@.len() == DIGEST_LEN,
{
    let mut hasher = Sha256::new();
    hasher.update(password);
    let result = hasher.finalize();
    format!("{:x}", result)
}

} // verus!
