//! Public keys as the Pubky SDK parses and writes them.

use vstd::prelude::*;
use std::str::FromStr;
use crate::error::CliError;

verus! {

/// What `pubky::PublicKey::from_str` followed by the key's `Display` gives for
/// `input`: the key's `pubky<z32>` identifier, or `None` where the SDK rejects
/// `input`.
pub uninterp spec fn parsed_public_key(input: Seq<char>) -> Option<Seq<char>>;

/// The `pubky<z32>` identifier of the public key that belongs to `secret`, as
/// `pubky::Keypair::from_secret(secret).public_key()` writes it.
pub uninterp spec fn public_key_of_secret(secret: Seq<u8>) -> Seq<char>;

/// The length of a `pubky<z32>` identifier: five letters of prefix and the 52
/// characters of a 32-byte key in z-base32.
pub open spec fn identifier_len() -> nat {
    57
}

/// A text in the form in which the SDK writes public keys: `pubky` followed
/// by 52 characters, which the SDK reads back as the same key.
pub open spec fn is_key_identifier(k: Seq<char>) -> bool {
    &&& k.len() == identifier_len()
    &&& "pubky"@.is_prefix_of(k)
    &&& parsed_public_key(k) == Some(k)
}

/// Calls `pubky::PublicKey::from_str` and writes the key with `Display`.
///
/// Trusted: the result is the named `parsed_public_key(input)`. Where it is
/// a key, the SDK's `Display` writes `pubky` and then the z-base32 encoding of
/// the 32 key bytes, 52 characters, and `from_str` strips that prefix from a
/// text of that shape and decodes the same bytes again.
#[verifier::external_body]
fn sdk_public_key(input: &str) -> (r: Option<String>)
    ensures
        match r {
            Some(k) => parsed_public_key(input@) == Some(k@) && is_key_identifier(k@),
            None => parsed_public_key(input@) is None,
        },
{
    match pubky::PublicKey::from_str(input) {
        Ok(key) => Some(key.to_string()),
        Err(_) => None,
    }
}

/// Calls `pubky::Keypair::from_secret` and writes the public key with
/// `Display`.
///
/// Trusted: the result is the named `public_key_of_secret(secret)`, written
/// as `pubky` and the 52 z-base32 characters of the key, which the SDK reads
/// back as the same key.
#[verifier::external_body]
fn sdk_public_key_of_secret(secret: &[u8; 32]) -> (k: String)
    ensures
        k@ == public_key_of_secret(secret@),
        is_key_identifier(k@),
{
    pubky::Keypair::from_secret(secret).public_key().to_string()
}

/// Reads a public key as the SDK does, and gives its `pubky<z32>` identifier.
pub fn parse_public_key(input: &str) -> (r: Result<String, CliError>)
    ensures
        match r {
            Ok(k) => parsed_public_key(input@) == Some(k@) && is_key_identifier(k@),
            Err(e) => parsed_public_key(input@) is None && e == CliError::InvalidPublicKey,
        },
{
    match sdk_public_key(input) {
        Some(k) => Ok(k),
        None => Err(CliError::InvalidPublicKey),
    }
}

/// The `pubky<z32>` identifier of the key pair with the given secret.
pub fn public_key_for_secret(secret: &[u8; 32]) -> (k: String)
    ensures
        k@ == public_key_of_secret(secret@),
        is_key_identifier(k@),
{
    sdk_public_key_of_secret(secret)
}

} // verus!
