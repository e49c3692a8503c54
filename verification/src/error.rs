//! The ways in which a command can fail.

use vstd::prelude::*;
use vstd::string::StringExecFns;

verus! {

/// Why a command did not complete.
#[derive(Clone, Copy, Debug, PartialEq, Eq, Structural)]
pub enum ErrorKind {
    /// The credential variable is absent or holds the empty string.
    MissingCredential,
    /// The credential is not base-58 text.
    DecodeError,
    /// The decoded bytes are not a keypair: wrong length, or the public
    /// half is not the one that belongs to the seed.
    InvalidKeyMaterial,
    /// The ledger could not be reached.
    NetworkError,
    /// The ledger answered with an error of its own.
    RpcError,
    /// The ledger did not confirm the transaction in time.
    ConfirmationTimeout,
}

/// The message shown for each kind of failure.
pub open spec fn spec_message(kind: ErrorKind) -> Seq<char> {
    match kind {
        ErrorKind::MissingCredential => "PRIVATE_KEY not found in .env"@,
        ErrorKind::DecodeError => "PRIVATE_KEY is not valid base-58"@,
        ErrorKind::InvalidKeyMaterial => "PRIVATE_KEY does not hold a keypair"@,
        ErrorKind::NetworkError => "the ledger endpoint could not be reached"@,
        ErrorKind::RpcError => "the ledger endpoint returned an error"@,
        ErrorKind::ConfirmationTimeout => "the transaction was not confirmed in time"@,
    }
}

impl ErrorKind {
    /// The human-readable message for this failure.
    pub fn message(&self) -> (text: String)
        ensures
            text@ == spec_message(*self),
    {
        match self {
            ErrorKind::MissingCredential => String::from_str("PRIVATE_KEY not found in .env"),
            ErrorKind::DecodeError => String::from_str("PRIVATE_KEY is not valid base-58"),
            ErrorKind::InvalidKeyMaterial => String::from_str(
                "PRIVATE_KEY does not hold a keypair",
            ),
            ErrorKind::NetworkError => String::from_str(
                "the ledger endpoint could not be reached",
            ),
            ErrorKind::RpcError => String::from_str("the ledger endpoint returned an error"),
            ErrorKind::ConfirmationTimeout => String::from_str(
                "the transaction was not confirmed in time",
            ),
        }
    }
}

} // verus!
