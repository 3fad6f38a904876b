//! Transaction records as a decoder hands them in.

use vstd::prelude::*;

verus! {

/// The kind of a transaction record.
#[derive(PartialEq, Eq, Structural, Debug, Clone, Copy)]
pub enum TransactionType {
    Deposit,
    Withdrawal,
    Dispute,
    Resolve,
    Chargeback,
}

/// One decoded transaction record. The amount is a narrow-tier quantity and
/// may be missing.
#[derive(Debug, Clone, Copy)]
pub struct Transaction {
    pub _type: TransactionType,
    pub client_id: u16,
    pub transaction_id: u32,
    pub amount: Option<u64>,
}

} // verus!
