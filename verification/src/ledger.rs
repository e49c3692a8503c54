//! What the ledger is asked and what it answers.

use vstd::prelude::*;

use crate::error::ErrorKind;

verus! {

/// The signature under which the ledger tracks a submitted transaction.
#[derive(Clone, Copy, Debug, PartialEq, Eq)]
pub struct SignatureId {
    bytes: [u8; 64],
}

impl View for SignatureId {
    type V = Seq<u8>;

    /// The bytes of the signature.
    closed spec fn view(&self) -> Seq<u8> {
        self.bytes@
    }
}

impl SignatureId {
    /// The signature with these bytes.
    pub fn new(bytes: [u8; 64]) -> (signature: SignatureId)
        ensures
            signature@ == bytes@,
    {
        SignatureId { bytes }
    }

    /// The bytes of the signature.
    pub fn bytes(&self) -> (bytes: [u8; 64])
        ensures
            bytes@ == self@,
    {
        self.bytes
    }
}

/// A request to fund an account once. It is submitted as it stands and
/// never sent again.
#[derive(Clone, Copy, Debug, PartialEq, Eq)]
pub struct AirdropRequest {
    target: [u8; 32],
    amount: u64,
}

/// An [`AirdropRequest`] as contracts see it.
pub struct AirdropRequestView {
    /// The public identifier of the account to fund.
    pub target: Seq<u8>,
    /// The amount in base units.
    pub amount: u64,
}

impl View for AirdropRequest {
    type V = AirdropRequestView;

    closed spec fn view(&self) -> AirdropRequestView {
        AirdropRequestView { target: self.target@, amount: self.amount }
    }
}

impl AirdropRequest {
    /// The request to fund `target` with `amount` base units.
    pub fn new(target: [u8; 32], amount: u64) -> (request: AirdropRequest)
        ensures
            request@ == (AirdropRequestView { target: target@, amount }),
    {
        AirdropRequest { target, amount }
    }

    /// The public identifier of the account to fund.
    pub fn target(&self) -> (target: [u8; 32])
        ensures
            target@ == self@.target,
    {
        self.target
    }

    /// The amount in base units.
    pub fn amount(&self) -> (amount: u64)
        ensures
            amount == self@.amount,
    {
        self.amount
    }
}

/// How a call to the ledger failed.
#[derive(Clone, Copy, Debug, PartialEq, Eq, Structural)]
pub enum LedgerError {
    /// The endpoint could not be reached.
    Network,
    /// The endpoint answered with an error.
    Rpc,
    /// The endpoint did not confirm the transaction in time.
    ConfirmationTimeout,
}

/// How a call to the ledger went wrong, as the client that made it saw it.
#[derive(Clone, Copy, Debug, PartialEq, Eq, Structural)]
pub enum CallFailure {
    /// Reading from or writing to the connection failed.
    Io,
    /// The request did not get through; `timed_out` where it ran out of
    /// time.
    Transport { timed_out: bool },
    /// Anything else: the endpoint answered, and the answer was an error.
    Other,
}

/// The failure that a call ends with. A request that ran out of time while
/// the confirmation was awaited is a confirmation that did not come; any
/// other trouble with the connection is a network failure.
pub open spec fn spec_ledger_error(
    failure: CallFailure,
    waiting_for_confirmation: bool,
) -> LedgerError {
    match failure {
        CallFailure::Io => LedgerError::Network,
        CallFailure::Transport { timed_out } => if timed_out && waiting_for_confirmation {
            LedgerError::ConfirmationTimeout
        } else {
            LedgerError::Network
        },
        CallFailure::Other => LedgerError::Rpc,
    }
}

/// The failure that a call ends with, given how it went wrong and whether
/// it was the wait for a confirmation.
pub fn ledger_error(failure: CallFailure, waiting_for_confirmation: bool) -> (error: LedgerError)
    ensures
        error == spec_ledger_error(failure, waiting_for_confirmation),
{
    match failure {
        CallFailure::Io => LedgerError::Network,
        CallFailure::Transport { timed_out } => {
            if timed_out && waiting_for_confirmation {
                LedgerError::ConfirmationTimeout
            } else {
                LedgerError::Network
            }
        },
        CallFailure::Other => LedgerError::Rpc,
    }
}

impl LedgerError {
    /// The kind of failure that the command ends with.
    pub open spec fn spec_kind(self) -> ErrorKind {
        match self {
            LedgerError::Network => ErrorKind::NetworkError,
            LedgerError::Rpc => ErrorKind::RpcError,
            LedgerError::ConfirmationTimeout => ErrorKind::ConfirmationTimeout,
        }
    }

    /// The kind of failure that the command ends with.
    pub fn kind(&self) -> (kind: ErrorKind)
        ensures
            kind == self.spec_kind(),
    {
        match self {
            LedgerError::Network => ErrorKind::NetworkError,
            LedgerError::Rpc => ErrorKind::RpcError,
            LedgerError::ConfirmationTimeout => ErrorKind::ConfirmationTimeout,
        }
    }
}

} // verus!
