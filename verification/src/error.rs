//! The errors that the library reports.

use vstd::prelude::*;

verus! {

/// Why a command could not be carried out.
#[derive(Debug, Clone, Copy, PartialEq, Eq, Structural)]
pub enum CliError {
    /// Neither the admin URL as given nor the same text after `http://` parses as a URL.
    InvalidAdminUrl,
    /// An admin API path could not be resolved against the admin URL.
    InvalidEndpoint,
    /// A text is not a public key.
    InvalidPublicKey,
    /// An entry path to delete does not lie under `/pub/`.
    EntryPathNotPublic,
    /// A recovery file could not be decrypted with the passphrase given.
    RecoveryDecryptFailed,
    /// A URL to list names no user's directory.
    InvalidListUrl,
}

impl CliError {
    /// The text that describes the error to a user.
    pub fn message(&self) -> (m: String)
        ensures
            m@ == self.spec_message(),
    {
        match self {
            CliError::InvalidAdminUrl => "Failed to parse admin URL".to_owned(),
            CliError::InvalidEndpoint => "Failed to build admin API URL".to_owned(),
            CliError::InvalidPublicKey => "Invalid public key".to_owned(),
            CliError::EntryPathNotPublic => "entry path must start with /pub/".to_owned(),
            CliError::RecoveryDecryptFailed => {
                "Failed to decrypt recovery file with provided passphrase".to_owned()
            },
            CliError::InvalidListUrl => {
                "List URL must be pubky://<user>/<path> or pubky<user>/<path>".to_owned()
            },
        }
    }

    /// The text that describes the error to a user.
    pub open spec fn spec_message(&self) -> Seq<char> {
        match self {
            CliError::InvalidAdminUrl => "Failed to parse admin URL"@,
            CliError::InvalidEndpoint => "Failed to build admin API URL"@,
            CliError::InvalidPublicKey => "Invalid public key"@,
            CliError::EntryPathNotPublic => "entry path must start with /pub/"@,
            CliError::RecoveryDecryptFailed =>
                "Failed to decrypt recovery file with provided passphrase"@,
            CliError::InvalidListUrl =>
                "List URL must be pubky://<user>/<path> or pubky<user>/<path>"@,
        }
    }
}

} // verus!
