use vstd::prelude::*;

verus! {

/// Identifies one account holder.
#[derive(Clone, Copy, PartialEq, Eq, Structural, Hash, Debug)]
pub struct Client(pub u16);

impl Client {
    pub open spec fn spec_id(self) -> u16 {
        self.0
    }

    pub fn id(&self) -> (r: u16)
        ensures
            r == self.spec_id(),
    {
        self.0
    }
}

impl From<u16> for Client {
    fn from(id: u16) -> (r: Self)
        ensures
            r.spec_id() == id,
    {
        Client(id)
    }
}

impl vstd::std_specs::convert::FromSpecImpl<u16> for Client {
    open spec fn obeys_from_spec() -> bool {
        true
    }

    open spec fn from_spec(id: u16) -> Self {
        Client(id)
    }
}

/// Identifies one deposit or withdrawal.
#[derive(Clone, Copy, PartialEq, Eq, Structural, PartialOrd, Ord, Hash, Debug)]
pub struct Tx(pub u32);

impl Tx {
    pub open spec fn spec_id(self) -> u32 {
        self.0
    }

    pub fn id(&self) -> (r: u32)
        ensures
            r == self.spec_id(),
    {
        self.0
    }
}

impl From<u32> for Tx {
    fn from(tx: u32) -> (r: Self)
        ensures
            r.spec_id() == tx,
    {
        Tx(tx)
    }
}

impl vstd::std_specs::convert::FromSpecImpl<u32> for Tx {
    open spec fn obeys_from_spec() -> bool {
        true
    }

    open spec fn from_spec(tx: u32) -> Self {
        Tx(tx)
    }
}

/// One record of the input stream. Amounts are in ten-thousandths of the
/// currency unit.
#[derive(Clone, Copy, PartialEq, Eq, Structural, Debug)]
pub enum Transaction {
    Deposit { client: Client, tx: Tx, amount: u64 },
    Withdrawal { client: Client, tx: Tx, amount: u64 },
    Dispute { client: Client, tx: Tx },
    Resolve { client: Client, tx: Tx },
    Chargeback { client: Client, tx: Tx },
}

impl Transaction {
    pub open spec fn spec_client(self) -> Client {
        match self {
            Transaction::Deposit { client, .. } => client,
            Transaction::Withdrawal { client, .. } => client,
            Transaction::Dispute { client, .. } => client,
            Transaction::Resolve { client, .. } => client,
            Transaction::Chargeback { client, .. } => client,
        }
    }

    /// The client the transaction is directed at.
    pub fn client(&self) -> (r: Client)
        ensures
            r == self.spec_client(),
    {
        match self {
            Transaction::Deposit { client, .. } => *client,
            Transaction::Withdrawal { client, .. } => *client,
            Transaction::Dispute { client, .. } => *client,
            Transaction::Resolve { client, .. } => *client,
            Transaction::Chargeback { client, .. } => *client,
        }
    }
}

} // verus!
