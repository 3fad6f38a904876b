//! What holds of an account whatever events it is given.

use crate::pool::amount::Amount;
use crate::pool::client::Account;
use crate::pool::event::Event;
use crate::pool::history::{selected, Entry, State};
use crate::pool::{account_or_fresh, ledger_run};
use vstd::prelude::*;

verus! {

/// The amount that the transaction `id` contributes to the held funds: its
/// recorded amount while it is under dispute, nothing otherwise.
pub open spec fn held_at(history: Map<u32, Entry>, id: int) -> nat {
    if 0 <= id <= u32::MAX && history.contains_key(id as u32) && history[id as u32].state
        == State::Held {
        history[id as u32].amount.0 as nat
    } else {
        0
    }
}

/// The sum of the amounts under dispute among the transactions with an id
/// below `bound`.
pub open spec fn held_below(history: Map<u32, Entry>, bound: nat) -> nat
    decreases bound,
{
    if bound == 0 {
        0
    } else {
        held_below(history, (bound - 1) as nat) + held_at(history, bound - 1)
    }
}

/// The sum of the amounts of all transactions under dispute.
pub open spec fn held_sum(history: Map<u32, Entry>) -> nat {
    held_below(history, 0x1_0000_0000)
}

/// Writing the entry `entry` under `id` changes the sum below `bound` by what
/// the transaction `id` contributed before and contributes after.
pub proof fn lemma_held_below_insert(history: Map<u32, Entry>, id: u32, entry: Entry, bound: nat)
    ensures
        id < bound ==> held_below(history.insert(id, entry), bound) + held_at(history, id as int)
            == held_below(history, bound) + held_at(history.insert(id, entry), id as int),
        id >= bound ==> held_below(history.insert(id, entry), bound) == held_below(history, bound),
    decreases bound,
{
    if bound > 0 {
        lemma_held_below_insert(history, id, entry, (bound - 1) as nat);
    }
}

/// The sum below `bound` is at least what any single transaction below
/// `bound` contributes.
pub proof fn lemma_held_below_covers(history: Map<u32, Entry>, id: u32, bound: nat)
    requires
        id < bound,
    ensures
        held_below(history, bound) >= held_at(history, id as int),
    decreases bound,
{
    if id < bound - 1 {
        lemma_held_below_covers(history, id, (bound - 1) as nat);
    }
}

impl Account {
    /// The balance equation: the total is the available and the held funds
    /// together.
    pub open spec fn balanced(self) -> bool {
        self.total == self.available + self.held
    }

    /// The account's invariant: the balance equation holds, and the held
    /// funds cover every amount that is under dispute.
    pub open spec fn consistent(self) -> bool {
        &&& self.balanced()
        &&& self.held >= held_sum(self.history)
    }

    /// The event disputes a recorded transaction whose amount the available
    /// funds no longer cover. The guarded subtraction then leaves the
    /// available funds as they are while the held funds still grow.
    pub open spec fn overdrawn_by(self, event: Event) -> bool {
        &&& !self.locked
        &&& event matches Event::Dispute { tx, .. }
        &&& selected(self.history, tx, State::Recorded) matches Some(amount)
        &&& self.available < amount.0
    }

    /// The event deposits more than the total's accumulator can still take
    /// while funds are held.
    pub open spec fn overfilled_by(self, event: Event) -> bool {
        &&& !self.locked
        &&& event matches Event::Deposit { amount, .. }
        &&& self.total + amount > u128::MAX
        &&& self.held > 0
    }
}

/// A fresh account satisfies the invariant.
pub proof fn lemma_fresh_is_consistent(id: u16)
    ensures
        Account::fresh(id).consistent(),
{
    lemma_held_below_empty(0x1_0000_0000);
}

/// Nothing is under dispute in an empty history.
pub proof fn lemma_held_below_empty(bound: nat)
    ensures
        held_below(Map::<u32, Entry>::empty(), bound) == 0,
    decreases bound,
{
    if bound > 0 {
        lemma_held_below_empty((bound - 1) as nat);
    }
}

/// Every event keeps the invariant, and with it the balance equation
/// `total == available + held`, unless it overdraws the available funds by a
/// dispute or overfills the total by a deposit.
pub proof fn lemma_step_keeps_consistent(account: Account, event: Event)
    requires
        account.consistent(),
        !account.overdrawn_by(event),
        !account.overfilled_by(event),
    ensures
        account.step(event).consistent(),
{
    let bound: nat = 0x1_0000_0000;
    if !account.locked {
        match event {
            Event::Deposit { tx, amount, .. } => {
                let entry = Entry { amount: Amount(amount), state: State::Recorded };
                lemma_held_below_insert(account.history, tx, entry, bound);
            },
            Event::Withdrawal { .. } => {},
            Event::Dispute { tx, .. } => {
                if let Some(amount) = selected(account.history, tx, State::Recorded) {
                    let entry = Entry { amount, state: State::Held };
                    lemma_held_below_insert(account.history, tx, entry, bound);
                }
            },
            Event::Resolve { tx, .. } => {
                if let Some(amount) = selected(account.history, tx, State::Held) {
                    let entry = Entry { amount, state: State::Recorded };
                    lemma_held_below_insert(account.history, tx, entry, bound);
                    lemma_held_below_covers(account.history, tx, bound);
                }
            },
            Event::Chargeback { tx, .. } => {
                if let Some(amount) = selected(account.history, tx, State::Held) {
                    let entry = Entry { amount, state: State::ChargedBack };
                    lemma_held_below_insert(account.history, tx, entry, bound);
                    lemma_held_below_covers(account.history, tx, bound);
                }
            },
            Event::Finish => {},
        }
    }
}

impl Account {
    /// No event of the run overdraws or overfills the account that it meets.
    pub open spec fn unstrained_by(self, events: Seq<Event>) -> bool
        decreases events.len(),
    {
        if events.len() == 0 || events[0] is Finish {
            true
        } else {
            &&& !self.overdrawn_by(events[0])
            &&& !self.overfilled_by(events[0])
            &&& self.step(events[0]).unstrained_by(events.drop_first())
        }
    }
}

/// A run keeps the invariant if none of its events overdraws or overfills
/// the account.
pub proof fn lemma_run_keeps_consistent(account: Account, events: Seq<Event>)
    requires
        account.consistent(),
        account.unstrained_by(events),
    ensures
        account.run(events).consistent(),
    decreases events.len(),
{
    if events.len() > 0 && !(events[0] is Finish) {
        lemma_step_keeps_consistent(account, events[0]);
        lemma_run_keeps_consistent(account.step(events[0]), events.drop_first());
    }
}

/// In every state that a fresh account reaches by a run without an
/// overdrawing dispute or an overfilling deposit, the total is the available
/// and the held funds together.
pub proof fn lemma_reachable_is_balanced(id: u16, events: Seq<Event>)
    requires
        Account::fresh(id).unstrained_by(events),
    ensures
        Account::fresh(id).run(events).total == Account::fresh(id).run(events).available
            + Account::fresh(id).run(events).held,
{
    lemma_fresh_is_consistent(id);
    lemma_run_keeps_consistent(Account::fresh(id), events);
}

/// A dispute that overdraws the available funds breaks the balance equation,
/// as long as the held funds stay below their accumulator's capacity: the
/// held funds grow by the disputed amount and nothing else moves.
pub proof fn lemma_overdrawing_dispute_unbalances(account: Account, event: Event)
    requires
        account.balanced(),
        account.overdrawn_by(event),
        account.step(event).held < u128::MAX,
    ensures
        !account.step(event).balanced(),
        account.step(event).total == account.total,
        account.step(event).available == account.available,
        account.step(event).held > account.held,
{
}

/// A deposit that overfills the total breaks the balance equation.
pub proof fn lemma_overfilling_deposit_unbalances(account: Account, event: Event)
    requires
        account.balanced(),
        account.overfilled_by(event),
    ensures
        !account.step(event).balanced(),
{
}

/// The available and the held funds are never negative, whatever the events.
pub proof fn lemma_funds_never_negative(account: Account, events: Seq<Event>)
    ensures
        account.run(events).available >= 0,
        account.run(events).held >= 0,
{
}

/// Resolving a transaction that is not under dispute changes nothing.
pub proof fn lemma_resolve_needs_held(account: Account, client: u16, tx: u32)
    requires
        !(account.history.contains_key(tx) && account.history[tx].state == State::Held),
    ensures
        account.step(Event::Resolve { client, tx }) == account,
{
}

/// Disputing a transaction that is not recorded, or is already under dispute
/// or charged back, changes nothing.
pub proof fn lemma_dispute_needs_recorded(account: Account, client: u16, tx: u32)
    requires
        !(account.history.contains_key(tx) && account.history[tx].state == State::Recorded),
    ensures
        account.step(Event::Dispute { client, tx }) == account,
{
}

/// Charging back a transaction that is not under dispute changes nothing.
pub proof fn lemma_chargeback_needs_held(account: Account, client: u16, tx: u32)
    requires
        !(account.history.contains_key(tx) && account.history[tx].state == State::Held),
    ensures
        account.step(Event::Chargeback { client, tx }) == account,
{
}

/// A withdrawal that the available funds do not cover changes nothing.
pub proof fn lemma_withdrawal_needs_funds(account: Account, client: u16, tx: u32, amount: u64)
    requires
        account.available < amount,
    ensures
        account.step(Event::Withdrawal { client, tx, amount }) == account,
{
}

/// Once an account is locked, no event changes any of its fields.
pub proof fn lemma_locked_is_final(account: Account, event: Event)
    requires
        account.locked,
    ensures
        account.step(event) == account,
{
}

/// Once an account is locked, no run of events changes any of its fields.
pub proof fn lemma_locked_stays_through_run(account: Account, events: Seq<Event>)
    requires
        account.locked,
    ensures
        account.run(events) == account,
    decreases events.len(),
{
    if events.len() > 0 && !(events[0] is Finish) {
        lemma_locked_stays_through_run(account, events.drop_first());
    }
}

/// Only a chargeback locks an account, and nothing unlocks it.
pub proof fn lemma_lock_comes_by_chargeback(account: Account, event: Event)
    ensures
        account.locked ==> account.step(event).locked,
        !account.locked && account.step(event).locked ==> event is Chargeback,
{
}

/// The held funds grow only by a dispute and shrink only by a resolve or a
/// chargeback.
pub proof fn lemma_held_moves_by_disputes(account: Account, event: Event)
    ensures
        account.step(event).held > account.held ==> event is Dispute,
        account.step(event).held < account.held ==> event is Resolve || event is Chargeback,
{
}

/// A recorded amount never changes: every event but a deposit keeps the
/// recorded transactions and their amounts, and a deposit touches no entry
/// but its own.
pub proof fn lemma_recorded_amounts_stay(account: Account, event: Event, tx: u32)
    requires
        account.history.contains_key(tx),
        !(event matches Event::Deposit { tx: deposited, .. } && deposited == tx),
    ensures
        account.step(event).history.contains_key(tx),
        account.step(event).history[tx].amount == account.history[tx].amount,
{
}

/// Replaying a run is the same as replaying its parts one after the other,
/// as long as the first part holds no `Finish`.
pub proof fn lemma_run_in_parts(account: Account, first: Seq<Event>, second: Seq<Event>)
    requires
        forall|i: int| 0 <= i < first.len() ==> !(#[trigger] first[i] is Finish),
    ensures
        account.run(first + second) == account.run(first).run(second),
    decreases first.len(),
{
    if first.len() == 0 {
        assert(first + second == second);
    } else {
        assert((first + second).drop_first() == first.drop_first() + second);
        lemma_run_in_parts(account.step(first[0]), first.drop_first(), second);
    }
}

/// The events of `events` that belong to the account `id`, in their order.
pub open spec fn events_of(events: Seq<Event>, id: u16) -> Seq<Event> {
    events.filter(|event: Event| event.account() == Some(id))
}

/// One event after a run without `Finish` is one more step.
proof fn lemma_run_then_step(account: Account, events: Seq<Event>, event: Event)
    requires
        forall|i: int| 0 <= i < events.len() ==> !(#[trigger] events[i] is Finish),
        !(event is Finish),
    ensures
        account.run(events.push(event)) == account.run(events).step(event),
{
    let last = seq![event];
    assert(events.push(event) == events + last);
    lemma_run_in_parts(account, events, last);
    assert(last.drop_first().len() == 0);
    let reached = account.run(events);
    assert(reached.run(last) == reached.step(event).run(last.drop_first()));
}

/// Determinism, whatever the interleaving: after any sequence of events the
/// ledger holds for each account what that account's own events, replayed
/// in their order on a fresh account, lead to; and it holds an account
/// exactly if some event referred to it.
pub proof fn lemma_account_follows_own_events(events: Seq<Event>, id: u16)
    ensures
        account_or_fresh(ledger_run(Map::empty(), events), id) == Account::fresh(id).run(
            events_of(events, id),
        ),
        ledger_run(Map::empty(), events).contains_key(id) <==> events_of(events, id).len() > 0,
    decreases events.len(),
{
    reveal(Seq::filter);
    if events.len() > 0 {
        let before = events.drop_last();
        let event = events.last();
        lemma_account_follows_own_events(before, id);
        if event.account() == Some(id) {
            let own = events_of(before, id);
            assert forall|i: int| 0 <= i < own.len() implies !(#[trigger] own[i] is Finish) by {
                before.lemma_filter_pred(|event: Event| event.account() == Some(id), i);
            }
            lemma_run_then_step(Account::fresh(id), own, event);
        }
    }
}

/// Two sequences of events that hold the same events for the account `id`,
/// in the same order, leave that account in the same state, however the
/// events of other accounts are interleaved with them.
pub proof fn lemma_interleaving_is_immaterial(first: Seq<Event>, second: Seq<Event>, id: u16)
    requires
        events_of(first, id) == events_of(second, id),
    ensures
        ledger_run(Map::empty(), first).contains_key(id) <==> ledger_run(
            Map::empty(),
            second,
        ).contains_key(id),
        account_or_fresh(ledger_run(Map::empty(), first), id) == account_or_fresh(
            ledger_run(Map::empty(), second),
            id,
        ),
{
    lemma_account_follows_own_events(first, id);
    lemma_account_follows_own_events(second, id);
}

/// In the ledger after any sequence of events, every account whose own
/// events hold no overdrawing dispute and no overfilling deposit has a total
/// that is its available and its held funds together.
pub proof fn lemma_ledger_account_is_balanced(events: Seq<Event>, id: u16)
    requires
        ledger_run(Map::empty(), events).contains_key(id),
        Account::fresh(id).unstrained_by(events_of(events, id)),
    ensures
        ledger_run(Map::empty(), events)[id].total == ledger_run(Map::empty(), events)[id].available
            + ledger_run(Map::empty(), events)[id].held,
{
    lemma_account_follows_own_events(events, id);
    lemma_reachable_is_balanced(id, events_of(events, id));
}

/// Every account of the ledger is filed under its own id.
pub proof fn lemma_ledger_is_filed_by_id(events: Seq<Event>, id: u16)
    requires
        ledger_run(Map::empty(), events).contains_key(id),
    ensures
        ledger_run(Map::empty(), events)[id].id == id,
    decreases events.len(),
{
    if events.len() > 0 {
        let before = ledger_run(Map::empty(), events.drop_last());
        if before.contains_key(id) {
            lemma_ledger_is_filed_by_id(events.drop_last(), id);
        }
    }
}

} // verus!
