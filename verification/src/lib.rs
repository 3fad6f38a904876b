//! A payments engine core: per-account balance state driven by a stream of
//! ledger events, with a dispute lifecycle for recorded deposits.
//!
//! Monetary quantities are fixed-point integers (see [`pool::amount`]), so all
//! balance arithmetic is exact.

pub mod error;
pub mod pool;
pub mod tx;

use crate::error::KrctError;
use crate::pool::client::{Account, Client};
use crate::pool::event::{event_of, Event};
use crate::pool::iter::{ascending, enumerates};
use crate::pool::{ledger_run, Pool};
use crate::tx::Transaction;
use vstd::prelude::*;

verus! {

/// The events that the transaction records `transactions` stand for, in
/// their order.
pub open spec fn events_from(transactions: Seq<Transaction>) -> Seq<Event> {
    transactions.map_values(|tx: Transaction| event_of(tx))
}

/// The engine: a pool of clients that has taken in a run of transactions.
pub struct Krct {
    pool: Pool,
}

impl View for Krct {
    type V = Map<u16, Account>;

    closed spec fn view(&self) -> Map<u16, Account> {
        self.pool@
    }
}

impl Krct {
    /// Takes in the transaction records one by one. Each record is an event
    /// that belongs to a client, and the client that owns it handles it. No
    /// record is refused: every kind of record belongs to an account.
    pub fn read(transactions: &[Transaction]) -> (result: Result<Self, KrctError>)
        ensures
            result matches Ok(krct) && krct@ == ledger_run(
                Map::empty(),
                events_from(transactions@),
            ),
    {
        let mut pool = Pool::default();
        let mut i: usize = 0;
        assert(events_from(transactions@.take(0)) == Seq::<Event>::empty());
        while i < transactions.len()
            invariant
                i <= transactions.len(),
                pool@ == ledger_run(Map::empty(), events_from(transactions@.take(i as int))),
            decreases transactions.len() - i,
        {
            let ghost taken = events_from(transactions@.take(i + 1));
            assert(taken.drop_last() == events_from(transactions@.take(i as int)));
            assert(taken.last() == event_of(transactions@[i as int]));
            match pool.handle(Event::from(transactions[i])) {
                Ok(()) => {},
                Err(err) => {
                    return Err(err);
                },
            }
            i += 1;
        }
        assert(transactions@.take(i as int) == transactions@);
        Ok(Krct { pool })
    }

    /// Ends the run and hands out the clients, each once, in no promised
    /// order.
    pub fn dump(self) -> (clients: Vec<Client>)
        ensures
            enumerates(clients@, self@),
    {
        self.pool.iter()
    }

    /// Ends the run and hands out the clients in ascending order of their
    /// ids.
    pub fn dump_sorted(self) -> (clients: Vec<Client>)
        ensures
            enumerates(clients@, self@),
            ascending(clients@),
    {
        self.pool.sorted()
    }
}

} // verus!
