//! The events that drive an account.

use crate::tx::{Transaction, TransactionType};
use vstd::prelude::*;

verus! {

/// Describes an event and the fields that come with it.
#[derive(PartialEq, Eq, Structural, Debug, Clone, Copy)]
pub enum Event {
    /// An incoming amount.
    Deposit { client: u16, tx: u32, amount: u64 },
    /// An outgoing amount.
    Withdrawal { client: u16, tx: u32, amount: u64 },
    /// A previous incoming amount is claimed to be erroneous.
    Dispute { client: u16, tx: u32 },
    /// A disputed amount is released again.
    Resolve { client: u16, tx: u32 },
    /// A disputed amount is charged back.
    Chargeback { client: u16, tx: u32 },
    /// There will be no more events: the result can be handed out.
    Finish,
}

/// The amount a record carries, zero where it carries none.
pub open spec fn amount_or_zero(amount: Option<u64>) -> u64 {
    match amount {
        Some(amount) => amount,
        None => 0,
    }
}

/// The event that a transaction record stands for. Only deposits and
/// withdrawals carry the record's amount; the others ignore it.
pub open spec fn event_of(tx: Transaction) -> Event {
    match tx._type {
        TransactionType::Deposit => Event::Deposit {
            client: tx.client_id,
            tx: tx.transaction_id,
            amount: amount_or_zero(tx.amount),
        },
        TransactionType::Withdrawal => Event::Withdrawal {
            client: tx.client_id,
            tx: tx.transaction_id,
            amount: amount_or_zero(tx.amount),
        },
        TransactionType::Dispute => Event::Dispute { client: tx.client_id, tx: tx.transaction_id },
        TransactionType::Resolve => Event::Resolve { client: tx.client_id, tx: tx.transaction_id },
        TransactionType::Chargeback => Event::Chargeback {
            client: tx.client_id,
            tx: tx.transaction_id,
        },
    }
}

impl From<Transaction> for Event {
    fn from(tx: Transaction) -> (event: Self) {
        match tx._type {
            TransactionType::Deposit => Event::Deposit {
                client: tx.client_id,
                tx: tx.transaction_id,
                amount: tx.amount.unwrap_or(0),
            },
            TransactionType::Withdrawal => Event::Withdrawal {
                client: tx.client_id,
                tx: tx.transaction_id,
                amount: tx.amount.unwrap_or(0),
            },
            TransactionType::Dispute => Event::Dispute {
                client: tx.client_id,
                tx: tx.transaction_id,
            },
            TransactionType::Resolve => Event::Resolve {
                client: tx.client_id,
                tx: tx.transaction_id,
            },
            TransactionType::Chargeback => Event::Chargeback {
                client: tx.client_id,
                tx: tx.transaction_id,
            },
        }
    }
}

impl vstd::std_specs::convert::FromSpecImpl<Transaction> for Event {
    open spec fn obeys_from_spec() -> bool {
        true
    }

    open spec fn from_spec(tx: Transaction) -> Event {
        event_of(tx)
    }
}

impl Event {
    /// The account that the event belongs to; `Finish` belongs to none.
    pub open spec fn account(self) -> Option<u16> {
        match self {
            Event::Deposit { client, .. } => Some(client),
            Event::Withdrawal { client, .. } => Some(client),
            Event::Dispute { client, .. } => Some(client),
            Event::Resolve { client, .. } => Some(client),
            Event::Chargeback { client, .. } => Some(client),
            Event::Finish => None,
        }
    }

    /// The account that the event is keyed on, if it has one.
    pub fn client(&self) -> (account: Option<u16>)
        ensures
            account == self.account(),
    {
        match self {
            Event::Deposit { client, .. } => Some(*client),
            Event::Withdrawal { client, .. } => Some(*client),
            Event::Dispute { client, .. } => Some(*client),
            Event::Resolve { client, .. } => Some(*client),
            Event::Chargeback { client, .. } => Some(*client),
            Event::Finish => None,
        }
    }
}

} // verus!
