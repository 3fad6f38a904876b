//! One account and the rules by which events change it.

use crate::pool::amount::{guarded_difference, sum_at_capacity, Amount};
use crate::pool::event::Event;
use crate::pool::history::{selected, with_state, Entry, History, State};
use vstd::prelude::*;

verus! {

/// The state of one account as a mathematical value.
pub struct Account {
    pub id: u16,
    pub history: Map<u32, Entry>,
    pub available: u128,
    pub held: u128,
    pub total: u128,
    pub locked: bool,
}

impl Account {
    /// The account `id` before any event: nothing recorded, all balances zero,
    /// not locked.
    pub open spec fn fresh(id: u16) -> Account {
        Account { id, history: Map::empty(), available: 0, held: 0, total: 0, locked: false }
    }

    /// The account after a deposit of `amount` under transaction `tx`.
    pub open spec fn deposit(self, tx: u32, amount: u64) -> Account {
        Account {
            history: self.history.insert(tx, Entry { amount: Amount(amount), state: State::Recorded }),
            available: sum_at_capacity(self.available, amount),
            total: sum_at_capacity(self.total, amount),
            ..self
        }
    }

    /// The account after a withdrawal of `amount`, which is ignored where the
    /// available funds do not cover it.
    pub open spec fn withdraw(self, amount: u64) -> Account {
        if self.available >= amount {
            Account {
                available: guarded_difference(self.available, amount),
                total: guarded_difference(self.total, amount),
                ..self
            }
        } else {
            self
        }
    }

    /// The account after a dispute of transaction `tx`, which is ignored
    /// unless `tx` is recorded and not under dispute.
    pub open spec fn dispute(self, tx: u32) -> Account {
        match selected(self.history, tx, State::Recorded) {
            Some(amount) => Account {
                history: with_state(self.history, tx, State::Held),
                available: guarded_difference(self.available, amount.0),
                held: sum_at_capacity(self.held, amount.0),
                ..self
            },
            None => self,
        }
    }

    /// The account after the dispute of transaction `tx` is resolved, which
    /// is ignored unless `tx` is under dispute.
    pub open spec fn resolve(self, tx: u32) -> Account {
        match selected(self.history, tx, State::Held) {
            Some(amount) => Account {
                history: with_state(self.history, tx, State::Recorded),
                held: guarded_difference(self.held, amount.0),
                available: sum_at_capacity(self.available, amount.0),
                ..self
            },
            None => self,
        }
    }

    /// The account after the disputed transaction `tx` is charged back,
    /// which locks the account; ignored unless `tx` is under dispute.
    pub open spec fn chargeback(self, tx: u32) -> Account {
        match selected(self.history, tx, State::Held) {
            Some(amount) => Account {
                history: with_state(self.history, tx, State::ChargedBack),
                held: guarded_difference(self.held, amount.0),
                total: guarded_difference(self.total, amount.0),
                locked: true,
                ..self
            },
            None => self,
        }
    }

    /// The account after one event. A locked account ignores every event, and
    /// `Finish` changes nothing.
    pub open spec fn step(self, event: Event) -> Account {
        if self.locked {
            self
        } else {
            match event {
                Event::Deposit { tx, amount, .. } => self.deposit(tx, amount),
                Event::Withdrawal { amount, .. } => self.withdraw(amount),
                Event::Dispute { tx, .. } => self.dispute(tx),
                Event::Resolve { tx, .. } => self.resolve(tx),
                Event::Chargeback { tx, .. } => self.chargeback(tx),
                Event::Finish => self,
            }
        }
    }

    /// The account after the events of `events` in order, up to the first
    /// `Finish` or, where there is none, to the end.
    pub open spec fn run(self, events: Seq<Event>) -> Account
        decreases events.len(),
    {
        if events.len() == 0 || events[0] is Finish {
            self
        } else {
            self.step(events[0]).run(events.drop_first())
        }
    }
}

/// Main business logic: the state of one client's account and the handling
/// of the events that belong to it.
#[derive(Debug)]
pub struct Client {
    id: u16,
    transaction_history: History,
    available: Amount<u128>,
    held: Amount<u128>,
    total: Amount<u128>,
    locked: bool,
}

impl View for Client {
    type V = Account;

    closed spec fn view(&self) -> Account {
        Account {
            id: self.id,
            history: self.transaction_history@,
            available: self.available.0,
            held: self.held.0,
            total: self.total.0,
            locked: self.locked,
        }
    }
}

impl Client {
    /// Constructs the client with the given id, with nothing recorded and all
    /// balances zero.
    pub fn new(client_id: u16) -> (client: Self)
        ensures
            client@ == Account::fresh(client_id),
    {
        Self {
            id: client_id,
            transaction_history: History::default(),
            available: Amount(0),
            held: Amount(0),
            total: Amount(0),
            locked: false,
        }
    }

    /// The client's id.
    pub fn id(&self) -> (id: u16)
        ensures
            id == self@.id,
    {
        self.id
    }

    /// The funds that are free to be withdrawn.
    pub fn available(&self) -> (available: Amount<u128>)
        ensures
            available.0 == self@.available,
    {
        self.available
    }

    /// The funds that are held back while their transactions are disputed.
    pub fn held(&self) -> (held: Amount<u128>)
        ensures
            held.0 == self@.held,
    {
        self.held
    }

    /// All funds of the client, available and held.
    pub fn total(&self) -> (total: Amount<u128>)
        ensures
            total.0 == self@.total,
    {
        self.total
    }

    /// Whether a chargeback has locked the client.
    pub fn locked(&self) -> (locked: bool)
        ensures
            locked == self@.locked,
    {
        self.locked
    }

    /// The transactions recorded for the client.
    pub fn transaction_history(&self) -> (history: &History)
        ensures
            history@ == self@.history,
    {
        &self.transaction_history
    }

    /// Handles one event and tells whether it was `Finish`, after which no
    /// further event is to be handled.
    ///
    /// * Deposit: records the transaction and increases the available and the
    ///   total amount.
    /// * Withdrawal: decreases the available and the total amount, if the
    ///   available amount covers it.
    /// * Dispute: moves the amount of a recorded transaction from available
    ///   to held.
    /// * Resolve: moves the amount of a disputed transaction back from held
    ///   to available.
    /// * Chargeback: takes the amount of a disputed transaction out of held
    ///   and total, and locks the client.
    ///
    /// A locked client ignores all of them.
    pub fn handle(&mut self, event: &Event) -> (finished: bool)
        ensures
            final(self)@ == old(self)@.step(*event),
            finished == (*event is Finish),
    {
        match *event {
            Event::Finish => {
                return true;
            },
            Event::Deposit { amount, tx, .. } => {
                if !self.locked {
                    self.transaction_history.insert(tx, Amount(amount));
                    self.available.add_assign(amount);
                    self.total.add_assign(amount);
                }
            },
            Event::Withdrawal { amount, .. } => {
                if !self.locked && self.available >= amount {
                    self.available.sub_assign(amount);
                    self.total.sub_assign(amount);
                }
            },
            Event::Dispute { tx, .. } => {
                if !self.locked {
                    if let Some(amount) = self.transaction_history.select(tx, State::Recorded) {
                        self.available.sub_assign(amount.0);
                        self.held.add_assign(amount.0);
                        self.transaction_history.set_state(tx, State::Held);
                    }
                }
            },
            Event::Resolve { tx, .. } => {
                if !self.locked {
                    if let Some(amount) = self.transaction_history.select(tx, State::Held) {
                        self.held.sub_assign(amount.0);
                        self.available.add_assign(amount.0);
                        self.transaction_history.set_state(tx, State::Recorded);
                    }
                }
            },
            Event::Chargeback { tx, .. } => {
                if !self.locked {
                    if let Some(amount) = self.transaction_history.select(tx, State::Held) {
                        self.held.sub_assign(amount.0);
                        self.total.sub_assign(amount.0);
                        self.locked = true;
                        self.transaction_history.set_state(tx, State::ChargedBack);
                    }
                }
            },
        }
        false
    }

    /// Handles the events of `events` in order until `Finish` arrives or the
    /// events end, and hands the client back.
    pub fn start_handling(self, events: &[Event]) -> (client: Self)
        ensures
            client@ == self@.run(events@),
    {
        let mut client = self;
        let mut i: usize = 0;
        assert(events@.subrange(0, events@.len() as int) == events@);
        while i < events.len()
            invariant
                i <= events.len(),
                client@.run(events@.subrange(i as int, events@.len() as int)) == self@.run(
                    events@,
                ),
            decreases events.len() - i,
        {
            let ghost rest = events@.subrange(i as int, events@.len() as int);
            assert(rest.len() > 0 && rest[0] == events@[i as int]);
            assert(rest.drop_first() == events@.subrange(i + 1, events@.len() as int));
            if client.handle(&events[i]) {
                return client;
            }
            i += 1;
        }
        client
    }
}

} // verus!
