//! The per-account record of disputable transactions.

use crate::pool::amount::Amount;
use std::collections::HashMap;
use vstd::prelude::*;

verus! {

broadcast use vstd::std_specs::hash::group_hash_axioms;

/// Where a recorded transaction stands in the dispute lifecycle.
#[derive(PartialEq, Eq, Structural, Debug, Clone, Copy)]
pub enum State {
    /// Base state: recorded and not under dispute.
    Recorded,
    /// Under dispute: its amount is held.
    Held,
    /// Charged back; terminal.
    ChargedBack,
}

/// One recorded transaction: the amount it carried, which never changes, and
/// its lifecycle state.
#[derive(Debug, Clone, Copy)]
pub struct Entry {
    pub amount: Amount<u64>,
    pub state: State,
}

/// What `select` yields on the entries `entries`: the amount recorded under
/// `id` where there is such an entry and it is in state `state`.
pub open spec fn selected(entries: Map<u32, Entry>, id: u32, state: State) -> Option<Amount<u64>> {
    if entries.contains_key(id) && entries[id].state == state {
        Some(entries[id].amount)
    } else {
        None
    }
}

/// The entries after `set_state`: the entry under `id`, where there is one,
/// moves to `state` and keeps its amount; nothing else changes.
pub open spec fn with_state(entries: Map<u32, Entry>, id: u32, state: State) -> Map<u32, Entry> {
    if entries.contains_key(id) {
        entries.insert(id, Entry { amount: entries[id].amount, state })
    } else {
        entries
    }
}

/// History of incoming transactions, keyed by transaction id, so that a
/// previous transaction can be disputed.
#[derive(Debug)]
pub struct History(HashMap<u32, Entry>);

impl View for History {
    type V = Map<u32, Entry>;

    closed spec fn view(&self) -> Map<u32, Entry> {
        self.0@
    }
}

impl Default for History {
    /// The empty history.
    fn default() -> (history: Self)
        ensures
            history@ == Map::<u32, Entry>::empty(),
    {
        History(HashMap::new())
    }
}

impl History {
    /// Adds an incoming transaction to the history in state `Recorded`. An id
    /// that is already present is overwritten: the last write wins.
    pub fn insert(&mut self, id: u32, amount: Amount<u64>)
        ensures
            final(self)@ == old(self)@.insert(id, Entry { amount, state: State::Recorded }),
    {
        self.0.insert(id, Entry { amount, state: State::Recorded });
    }

    /// Selects the amount of the transaction `id` if it is recorded and
    /// currently in the given state.
    pub fn select(&self, id: u32, state: State) -> (amount: Option<Amount<u64>>)
        ensures
            amount == selected(self@, id, state),
    {
        match self.0.get(&id) {
            Some(entry) => {
                if entry.state == state {
                    Some(entry.amount)
                } else {
                    None
                }
            },
            None => None,
        }
    }

    /// Sets the state of the transaction `id`. Does nothing if the
    /// transaction is not in the history.
    pub fn set_state(&mut self, id: u32, state: State)
        ensures
            final(self)@ == with_state(old(self)@, id, state),
    {
        let amount = match self.0.get(&id) {
            Some(entry) => Some(entry.amount),
            None => None,
        };
        if let Some(amount) = amount {
            self.0.insert(id, Entry { amount, state });
        }
    }
}

/// The entries that a list of transactions makes: each `(id, amount, state)`
/// is written under its id in the order of the list, so of two items with
/// one id the later stays.
pub open spec fn history_of(data: Seq<(u32, u64, State)>) -> Map<u32, Entry>
    decreases data.len(),
{
    if data.len() == 0 {
        Map::empty()
    } else {
        history_of(data.drop_last()).insert(
            data.last().0,
            Entry { amount: Amount(data.last().1), state: data.last().2 },
        )
    }
}

impl History {
    /// The history that holds the listed transactions, each with its amount
    /// and in its state.
    pub fn from<const N: usize>(data: [(u32, u64, State); N]) -> (history: Self)
        ensures
            history@ == history_of(data@),
    {
        let mut history = History::default();
        let mut i: usize = 0;
        assert(data@.take(0) == Seq::<(u32, u64, State)>::empty());
        while i < N
            invariant
                i <= N,
                N == data@.len(),
                history@ == history_of(data@.take(i as int)),
            decreases N - i,
        {
            assert(data@.take(i + 1).drop_last() == data@.take(i as int));
            let (key, value, state) = data[i];
            history.insert(key, Amount(value));
            history.set_state(key, state);
            i += 1;
        }
        assert(data@.take(N as int) == data@);
        history
    }

    /// The number of recorded transactions.
    pub fn len(&self) -> (len: usize)
        ensures
            len == self@.len(),
    {
        self.0.len()
    }
}

/// The two maps hold the same entry under `id`.
spec fn agree_at(mine: Map<u32, Entry>, theirs: Map<u32, Entry>, id: u32) -> bool {
    mine.contains_key(id) && theirs.contains_key(id) && mine[id] == theirs[id]
}

impl PartialEq for History {
    /// Whether the two histories record the same transactions with the same
    /// amounts in the same states.
    fn eq(&self, other: &Self) -> (r: bool) {
        if self.0.len() != other.0.len() {
            return false;
        }
        for id in keys: self.0.keys()
            invariant
                self@.dom().finite(),
                other@.dom().finite(),
                self@.dom().len() == other@.dom().len(),
                forall|id: u32|
                    self@.contains_key(id) ==> agree_at(self@, other@, id) || exists|j: int|
                        keys.index() <= j < keys.seq().len() && *#[trigger] keys.seq()[j] == id,
        {
            let same = match (self.0.get(id), other.0.get(id)) {
                (Some(mine), Some(theirs)) => mine.amount.0 == theirs.amount.0 && mine.state
                    == theirs.state,
                _ => false,
            };
            if !same {
                return false;
            }
        }
        proof {
            assert forall|id: u32| self@.contains_key(id) implies agree_at(self@, other@, id) by {}
            assert(self@.dom().subset_of(other@.dom()));
            vstd::set_lib::lemma_subset_equality(self@.dom(), other@.dom());
            assert(self@ =~= other@);
        }
        true
    }
}

impl vstd::std_specs::cmp::PartialEqSpecImpl for History {
    open spec fn obeys_eq_spec() -> bool {
        true
    }

    open spec fn eq_spec(&self, other: &Self) -> bool {
        self@ == other@
    }
}

} // verus!
