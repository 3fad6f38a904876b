//! Handing out the clients at the end of a run.

use crate::pool::client::{Account, Client};
use crate::pool::{accounts, Pool};
use std::collections::HashMap;
use vstd::prelude::*;

verus! {

broadcast use vstd::std_specs::hash::group_hash_axioms;

/// The clients `clients` are the accounts of `ledger`, each exactly once, in
/// whatever order.
pub open spec fn enumerates(clients: Seq<Client>, ledger: Map<u16, Account>) -> bool {
    &&& clients.len() == ledger.len()
    &&& forall|i: int|
        0 <= i < clients.len() ==> ledger.contains_key(#[trigger] clients[i]@.id)
            && ledger[clients[i]@.id] == clients[i]@
    &&& forall|i: int, j: int|
        0 <= i < j < clients.len() ==> #[trigger] clients[i]@.id != #[trigger] clients[j]@.id
}

/// The clients `clients` stand in ascending order of their ids, no id twice.
pub open spec fn ascending(clients: Seq<Client>) -> bool {
    forall|i: int, j: int|
        0 <= i < j < clients.len() ==> #[trigger] clients[i]@.id < #[trigger] clients[j]@.id
}

impl Pool {
    /// Ends the run and hands out the clients, each once. The order in which
    /// they come is not part of the promise.
    pub fn iter(self) -> (clients: Vec<Client>)
        ensures
            enumerates(clients@, self@),
    {
        self.sorted()
    }

    /// Ends the run and hands out the clients in ascending order of their
    /// ids.
    pub fn sorted(self) -> (clients: Vec<Client>)
        ensures
            enumerates(clients@, self@),
            ascending(clients@),
    {
        proof {
            use_type_invariant(&self);
        }
        let mut rest: HashMap<u16, Client> = self.clients;
        let ghost all = rest@;
        let mut clients: Vec<Client> = Vec::new();
        let mut next: u32 = 0;
        while next <= 0xFFFF
            invariant
                next <= 0x1_0000,
                rest@.dom().finite(),
                all.dom().finite(),
                forall|id: u16| #[trigger] all.contains_key(id) ==> all[id]@.id == id,
                forall|id: u16| id < next ==> !#[trigger] rest@.contains_key(id),
                forall|id: u16|
                    id >= next ==> (#[trigger] rest@.contains_key(id) <==> all.contains_key(id)),
                forall|id: u16| id >= next && #[trigger] rest@.contains_key(id) ==> rest@[id] == all[id],
                clients.len() + rest@.dom().len() == all.dom().len(),
                forall|i: int|
                    0 <= i < clients.len() ==> (#[trigger] clients[i]@.id) < next && all.contains_key(
                        clients[i]@.id,
                    ) && all[clients[i]@.id]@ == clients[i]@,
                ascending(clients@),
            decreases 0x1_0000 - next,
        {
            let id: u16 = next as u16;
            match rest.remove(&id) {
                Some(client) => {
                    clients.push(client);
                },
                None => {},
            }
            next += 1;
        }
        assert(rest@.dom() =~= Set::<u16>::empty());
        assert(accounts(all).dom() =~= all.dom());
        clients
    }
}

} // verus!
