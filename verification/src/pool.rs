//! Accounts, their transaction history, and the events that drive them.

pub mod amount;
pub mod client;
pub mod event;
pub mod history;
pub mod iter;
pub mod laws;

use crate::error::KrctError;
use crate::pool::client::{Account, Client};
use crate::pool::event::Event;
use std::collections::HashMap;
use vstd::prelude::*;

verus! {

broadcast use vstd::std_specs::hash::group_hash_axioms;

/// How many clients the pool makes room for at the start.
const CLIENT_PREALLOCATE: usize = 10;

/// The account `id` as the ledger knows it: its recorded state, or a fresh
/// account where no event has referred to it yet.
pub open spec fn account_or_fresh(ledger: Map<u16, Account>, id: u16) -> Account {
    if ledger.contains_key(id) {
        ledger[id]
    } else {
        Account::fresh(id)
    }
}

/// The ledger after one event: the event's account, created on its first
/// reference, takes the step; no other account changes. An event without an
/// account changes nothing.
pub open spec fn ledger_step(ledger: Map<u16, Account>, event: Event) -> Map<u16, Account> {
    match event.account() {
        Some(id) => ledger.insert(id, account_or_fresh(ledger, id).step(event)),
        None => ledger,
    }
}

/// The ledger after the events of `events` in order.
pub open spec fn ledger_run(ledger: Map<u16, Account>, events: Seq<Event>) -> Map<u16, Account>
    decreases events.len(),
{
    if events.len() == 0 {
        ledger
    } else {
        ledger_step(ledger_run(ledger, events.drop_last()), events.last())
    }
}

/// The accounts that the clients `clients` stand for.
pub(crate) closed spec fn accounts(clients: Map<u16, Client>) -> Map<u16, Account> {
    clients.map_values(|client: Client| client@)
}

/// The clients of a run, by id. Each event goes to the client that owns its
/// account and to no other; a client comes into being with the first event
/// that refers to it.
pub struct Pool {
    clients: HashMap<u16, Client>,
}

impl View for Pool {
    type V = Map<u16, Account>;

    closed spec fn view(&self) -> Map<u16, Account> {
        accounts(self.clients@)
    }
}

impl Default for Pool {
    /// The pool without clients.
    fn default() -> (pool: Self)
        ensures
            pool@ == Map::<u16, Account>::empty(),
    {
        let pool = Self { clients: HashMap::with_capacity(CLIENT_PREALLOCATE) };
        assert(pool@ =~= Map::<u16, Account>::empty());
        pool
    }
}

impl Pool {
    /// Every client is filed under its own id.
    #[verifier::type_invariant]
    spec fn filed_by_id(self) -> bool {
        forall|id: u16| #[trigger] self.clients@.contains_key(id) ==> self.clients@[id]@.id == id
    }

    /// Hands the event to the client that owns its account, creating the
    /// client on first reference. An event that belongs to no account is
    /// refused and changes nothing.
    pub fn handle(&mut self, event: Event) -> (result: Result<(), KrctError>)
        ensures
            final(self)@ == ledger_step(old(self)@, event),
            result == (match event.account() {
                Some(_) => Ok::<(), KrctError>(()),
                None => Err::<(), KrctError>(KrctError::UnkUnknownEvent(event)),
            }),
    {
        let id = match event.client() {
            Some(id) => id,
            None => {
                return Err(KrctError::UnkUnknownEvent(event));
            },
        };
        proof {
            use_type_invariant(&*self);
        }
        let mut clients = HashMap::new();
        std::mem::swap(&mut self.clients, &mut clients);
        let client = Self::get_or_insert(&mut clients, id);
        client.handle(&event);
        std::mem::swap(&mut self.clients, &mut clients);
        assert(self@ =~= ledger_step(old(self)@, event));
        Ok(())
    }

    /// The client `client_id` of `clients`, put there first where there was
    /// none under that id.
    fn get_or_insert(clients: &mut HashMap<u16, Client>, client_id: u16) -> (client: &mut Client)
        ensures
            client@ == account_or_fresh(accounts(old(clients)@), client_id),
            final(clients)@ == old(clients)@.insert(client_id, *final(client)),
    {
        clients.entry(client_id).or_insert(Client::new(client_id))
    }

    /// The number of clients.
    pub fn len(&self) -> (len: usize)
        ensures
            len == self@.len(),
    {
        assert(self@.dom() =~= self.clients@.dom());
        self.clients.len()
    }
}

} // verus!
