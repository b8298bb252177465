use vstd::prelude::*;

verus! {

/// Why the engine rejected a transaction. A rejected transaction leaves every
/// account as it was.
#[derive(Debug, Clone, Copy, PartialEq, Eq, Structural)]
pub enum Error {
    /// A withdrawal asked for more than the available funds.
    InsufficientFunds,
    /// The account has had a chargeback and takes no further transactions.
    AccountLocked,
    /// No deposit with the referenced transaction id exists for the client.
    TransactionNotFound,
    /// The referenced deposit is not under dispute.
    TransactionNotDisputed,
}

impl Error {
    /// A short human-readable description of the error.
    pub fn message(&self) -> (r: &'static str)
        ensures
            r@ == self.message_spec(),
    {
        match self {
            Error::InsufficientFunds => "insufficient funds",
            Error::AccountLocked => "account locked",
            Error::TransactionNotFound => "transaction not found",
            Error::TransactionNotDisputed => "transaction not under dispute",
        }
    }

    pub open spec fn message_spec(&self) -> Seq<char> {
        match self {
            Error::InsufficientFunds => "insufficient funds"@,
            Error::AccountLocked => "account locked"@,
            Error::TransactionNotFound => "transaction not found"@,
            Error::TransactionNotDisputed => "transaction not under dispute"@,
        }
    }
}

} // verus!
