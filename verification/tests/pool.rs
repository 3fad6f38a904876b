use krct::pool::amount::{Amount, UNITS_PER_WHOLE};
use krct::pool::client::Client;
use krct::pool::event::Event;
use krct::pool::history::{History, State};
use krct::pool::Pool;
use std::collections::HashMap;

struct ClientAssertion {
    id: u16,
    transaction_history: History,
    available: f64,
    held: f64,
    total: f64,
    locked: bool,
}

fn narrow(amount: f64) -> u64 {
    (amount * UNITS_PER_WHOLE as f64).round() as u64
}

fn wide(amount: f64) -> Amount<u128> {
    Amount(narrow(amount) as u128)
}

fn send(pool: &mut Pool, event: Event) {
    assert!(pool.handle(event).is_ok())
}

fn assert_clients(pool: Pool, expected: Vec<ClientAssertion>) {
    assert_eq!(
        pool.len(),
        expected.len(),
        "Pool length and Assertion asset length should be equal"
    );
    let result_set = pool
        .iter()
        .into_iter()
        .map(|client| (client.id(), client))
        .collect::<HashMap<u16, Client>>();

    for expected_client in expected {
        let client = result_set.get(&expected_client.id);
        assert!(
            client.is_some(),
            "Client should be found with id: {}",
            expected_client.id
        );
        let client = client.unwrap();
        assert_eq!(
            client.transaction_history(),
            &expected_client.transaction_history
        );
        assert_eq!(client.available(), wide(expected_client.available));
        assert_eq!(client.held(), wide(expected_client.held));
        assert_eq!(client.total(), wide(expected_client.total));
        assert_eq!(client.locked(), expected_client.locked);
    }
}

#[test]
fn test_deposit_flow() {
    let mut pool = Pool::default();
    send(
        &mut pool,
        Event::Deposit {
            client: 1,
            tx: 1,
            amount: narrow(1.0),
        },
    );
    send(
        &mut pool,
        Event::Deposit {
            client: 1,
            tx: 2,
            amount: narrow(2.0),
        },
    );
    send(
        &mut pool,
        Event::Deposit {
            client: 2,
            tx: 3,
            amount: narrow(1.0),
        },
    );
    assert_clients(
        pool,
        vec![
            ClientAssertion {
                id: 1,
                available: 3.0,
                held: 0.0,
                total: 3.0,
                locked: false,
                transaction_history: History::from([
                    (1, narrow(1.0), State::Recorded),
                    (2, narrow(2.0), State::Recorded),
                ]),
            },
            ClientAssertion {
                id: 2,
                available: 1.0,
                held: 0.0,
                total: 1.0,
                locked: false,
                transaction_history: History::from([(3, narrow(1.0), State::Recorded)]),
            },
        ],
    );
}

#[test]
fn test_withdrawal_flow() {
    let mut pool = Pool::default();
    send(
        &mut pool,
        Event::Deposit {
            client: 1,
            tx: 1,
            amount: narrow(2.0),
        },
    );
    send(
        &mut pool,
        Event::Withdrawal {
            client: 1,
            tx: 2,
            amount: narrow(1.0),
        },
    );
    send(
        &mut pool,
        Event::Withdrawal {
            client: 2,
            tx: 3,
            amount: narrow(1.0),
        },
    );
    assert_clients(
        pool,
        vec![
            ClientAssertion {
                id: 1,
                available: 1.0,
                held: 0.0,
                total: 1.0,
                locked: false,
                transaction_history: History::from([(1, narrow(2.0), State::Recorded)]),
            },
            ClientAssertion {
                id: 2,
                available: 0.0,
                held: 0.0,
                total: 0.0,
                locked: false,
                transaction_history: History::default(),
            },
        ],
    );
}

#[test]
fn test_dispute_flow() {
    let mut pool = Pool::default();
    send(
        &mut pool,
        Event::Deposit {
            client: 1,
            tx: 1,
            amount: narrow(2.0),
        },
    );
    send(
        &mut pool,
        Event::Deposit {
            client: 1,
            tx: 2,
            amount: narrow(1.0),
        },
    );
    send(&mut pool, Event::Dispute { client: 1, tx: 2 });
    assert_clients(
        pool,
        vec![ClientAssertion {
            id: 1,
            available: 2.0,
            held: 1.0,
            total: 3.0,
            locked: false,
            transaction_history: History::from([(1, narrow(2.0), State::Recorded), (2, narrow(1.0), State::Held)]),
        }],
    );
}

#[test]
fn test_resolve_flow() {
    let mut pool = Pool::default();
    send(
        &mut pool,
        Event::Deposit {
            client: 1,
            tx: 1,
            amount: narrow(2.0),
        },
    );
    send(
        &mut pool,
        Event::Deposit {
            client: 1,
            tx: 2,
            amount: narrow(1.0),
        },
    );
    send(&mut pool, Event::Dispute { client: 1, tx: 2 });
    send(&mut pool, Event::Resolve { client: 1, tx: 2 });
    assert_clients(
        pool,
        vec![ClientAssertion {
            id: 1,
            available: 3.0,
            held: 0.0,
            total: 3.0,
            locked: false,
            transaction_history: History::from([
                (1, narrow(2.0), State::Recorded),
                (2, narrow(1.0), State::Recorded),
            ]),
        }],
    );
}

#[test]
fn test_chargeback_flow() {
    let mut pool = Pool::default();
    send(
        &mut pool,
        Event::Deposit {
            client: 1,
            tx: 1,
            amount: narrow(2.0),
        },
    );
    send(
        &mut pool,
        Event::Deposit {
            client: 1,
            tx: 2,
            amount: narrow(1.0),
        },
    );
    send(&mut pool, Event::Dispute { client: 1, tx: 2 });
    send(&mut pool, Event::Chargeback { client: 1, tx: 2 });
    assert_clients(
        pool,
        vec![ClientAssertion {
            id: 1,
            available: 2.0,
            held: 0.0,
            total: 2.0,
            locked: true,
            transaction_history: History::from([
                (1, narrow(2.0), State::Recorded),
                (2, narrow(1.0), State::ChargedBack),
            ]),
        }],
    );
}

#[test]
fn test_deposit_after_chargeback() {
    let mut pool = Pool::default();
    send(
        &mut pool,
        Event::Deposit {
            client: 1,
            tx: 1,
            amount: narrow(2.0),
        },
    );
    send(&mut pool, Event::Dispute { client: 1, tx: 1 });
    send(&mut pool, Event::Chargeback { client: 1, tx: 1 });
    send(
        &mut pool,
        Event::Deposit {
            client: 1,
            tx: 2,
            amount: narrow(1.0),
        },
    );
    assert_clients(
        pool,
        vec![ClientAssertion {
            id: 1,
            available: 0.0,
            held: 0.0,
            total: 0.0,
            locked: true,
            transaction_history: History::from([(1, narrow(2.0), State::ChargedBack)]),
        }],
    );
}

#[test]
fn test_dispute_event_ignored_upon_non_existent_transaction_id() {
    let mut pool = Pool::default();
    send(
        &mut pool,
        Event::Deposit {
            client: 1,
            tx: 1,
            amount: narrow(1.0),
        },
    );
    send(&mut pool, Event::Dispute { client: 1, tx: 2 });
    assert_clients(
        pool,
        vec![ClientAssertion {
            id: 1,
            available: 1.0,
            held: 0.0,
            total: 1.0,
            locked: false,
            transaction_history: History::from([(1, narrow(1.0), State::Recorded)]),
        }],
    );
}

#[test]
fn test_resolve_event_ignored_upon_non_existent_transaction_id() {
    let mut pool = Pool::default();
    send(
        &mut pool,
        Event::Deposit {
            client: 1,
            tx: 1,
            amount: narrow(1.0),
        },
    );
    send(&mut pool, Event::Dispute { client: 1, tx: 1 });
    send(&mut pool, Event::Resolve { client: 1, tx: 2 });
    assert_clients(
        pool,
        vec![ClientAssertion {
            id: 1,
            available: 0.0,
            held: 1.0,
            total: 1.0,
            locked: false,
            transaction_history: History::from([(1, narrow(1.0), State::Held)]),
        }],
    );
}

#[test]
fn test_resolve_event_ignored_upon_non_disputed_transaction_id() {
    let mut pool = Pool::default();
    send(
        &mut pool,
        Event::Deposit {
            client: 1,
            tx: 1,
            amount: narrow(1.0),
        },
    );
    send(&mut pool, Event::Resolve { client: 1, tx: 1 });
    assert_clients(
        pool,
        vec![ClientAssertion {
            id: 1,
            available: 1.0,
            held: 0.0,
            total: 1.0,
            locked: false,
            transaction_history: History::from([(1, narrow(1.0), State::Recorded)]),
        }],
    );
}

#[test]
fn test_chargeback_event_ignored_upon_non_existent_transaction_id() {
    let mut pool = Pool::default();
    send(
        &mut pool,
        Event::Deposit {
            client: 1,
            tx: 1,
            amount: narrow(1.0),
        },
    );
    send(&mut pool, Event::Dispute { client: 1, tx: 1 });
    send(&mut pool, Event::Chargeback { client: 1, tx: 2 });
    assert_clients(
        pool,
        vec![ClientAssertion {
            id: 1,
            available: 0.0,
            held: 1.0,
            total: 1.0,
            locked: false,
            transaction_history: History::from([(1, narrow(1.0), State::Held)]),
        }],
    );
}

#[test]
fn test_chargeback_event_ignored_upon_non_disputed_transaction_id() {
    let mut pool = Pool::default();
    send(
        &mut pool,
        Event::Deposit {
            client: 1,
            tx: 1,
            amount: narrow(1.0),
        },
    );
    send(&mut pool, Event::Chargeback { client: 1, tx: 1 });
    assert_clients(
        pool,
        vec![ClientAssertion {
            id: 1,
            available: 1.0,
            held: 0.0,
            total: 1.0,
            locked: false,
            transaction_history: History::from([(1, narrow(1.0), State::Recorded)]),
        }],
    );
}

#[test]
fn test_pool_join() {
    let mut pool = Pool::default();
    for id in 1..4 {
        send(&mut pool, Event::Dispute { client: id, tx: 1 });
    }

    assert_eq!(pool.iter().into_iter().collect::<Vec<Client>>().len(), 3);
}

#[test]
fn test_empty_pool() {
    let pool = Pool::default();
    assert_eq!(pool.len(), 0);
    assert!(pool.iter().is_empty());
    assert!(Pool::default().sorted().is_empty());
}

#[test]
fn test_finish_is_refused_by_the_pool() {
    let mut pool = Pool::default();
    send(
        &mut pool,
        Event::Deposit {
            client: 1,
            tx: 1,
            amount: narrow(1.0),
        },
    );
    assert_eq!(
        pool.handle(Event::Finish),
        Err(krct::error::KrctError::UnkUnknownEvent(Event::Finish))
    );
    assert_clients(
        pool,
        vec![ClientAssertion {
            id: 1,
            available: 1.0,
            held: 0.0,
            total: 1.0,
            locked: false,
            transaction_history: History::from([(1, narrow(1.0), State::Recorded)]),
        }],
    );
}

#[test]
fn test_finish_on_empty_pool_creates_no_client() {
    let mut pool = Pool::default();
    assert!(pool.handle(Event::Finish).is_err());
    assert_eq!(pool.len(), 0);
}

#[test]
fn test_client_is_created_on_first_reference() {
    let mut pool = Pool::default();
    send(&mut pool, Event::Resolve { client: 9, tx: 1 });
    assert_eq!(pool.len(), 1);
    send(&mut pool, Event::Chargeback { client: 9, tx: 1 });
    assert_eq!(pool.len(), 1);
    assert_clients(
        pool,
        vec![ClientAssertion {
            id: 9,
            available: 0.0,
            held: 0.0,
            total: 0.0,
            locked: false,
            transaction_history: History::default(),
        }],
    );
}

#[test]
fn test_withdrawal_without_funds_is_ignored() {
    let mut pool = Pool::default();
    send(
        &mut pool,
        Event::Withdrawal {
            client: 1,
            tx: 1,
            amount: narrow(5.0),
        },
    );
    assert_clients(
        pool,
        vec![ClientAssertion {
            id: 1,
            available: 0.0,
            held: 0.0,
            total: 0.0,
            locked: false,
            transaction_history: History::default(),
        }],
    );
}

#[test]
fn test_sorted_is_ascending_by_client() {
    let mut pool = Pool::default();
    for id in [40_000u16, 3, 65_535, 0, 17, 3, 256] {
        send(
            &mut pool,
            Event::Deposit {
                client: id,
                tx: id as u32,
                amount: id as u64 + 1,
            },
        );
    }
    assert_eq!(pool.len(), 6);
    let clients = pool.sorted();
    let ids = clients.iter().map(|client| client.id()).collect::<Vec<u16>>();
    assert_eq!(ids, vec![0, 3, 17, 256, 40_000, 65_535]);
    let totals = clients
        .iter()
        .map(|client| client.total().0)
        .collect::<Vec<u128>>();
    assert_eq!(totals, vec![1, 8, 18, 257, 40_001, 65_536]);
}

#[test]
fn test_iter_hands_out_each_client_once() {
    let mut pool = Pool::default();
    for id in [5u16, 2, 9, 2, 5, 7] {
        send(
            &mut pool,
            Event::Deposit {
                client: id,
                tx: 1,
                amount: 1,
            },
        );
    }
    let mut ids = pool
        .iter()
        .iter()
        .map(|client| client.id())
        .collect::<Vec<u16>>();
    ids.sort();
    assert_eq!(ids, vec![2, 5, 7, 9]);
}

#[test]
fn test_interleaving_with_other_clients_is_immaterial() {
    let own = [
        Event::Deposit {
            client: 1,
            tx: 1,
            amount: narrow(2.0),
        },
        Event::Deposit {
            client: 1,
            tx: 2,
            amount: narrow(1.0),
        },
        Event::Dispute { client: 1, tx: 2 },
        Event::Withdrawal {
            client: 1,
            tx: 3,
            amount: narrow(0.5),
        },
    ];
    let other = [
        Event::Deposit {
            client: 2,
            tx: 4,
            amount: narrow(7.0),
        },
        Event::Dispute { client: 2, tx: 4 },
        Event::Chargeback { client: 2, tx: 4 },
    ];

    let mut first = Pool::default();
    for event in own.iter().chain(other.iter()) {
        send(&mut first, *event);
    }
    let mut second = Pool::default();
    for event in [other[0], own[0], other[1], own[1], own[2], other[2], own[3]] {
        send(&mut second, event);
    }
    let alone = Client::new(1).start_handling(&own);

    for clients in [first.sorted(), second.sorted()] {
        assert_eq!(clients.len(), 2);
        assert_eq!(clients[0].id(), 1);
        assert_eq!(clients[0].available(), alone.available());
        assert_eq!(clients[0].held(), alone.held());
        assert_eq!(clients[0].total(), alone.total());
        assert_eq!(clients[0].locked(), alone.locked());
        assert_eq!(clients[0].transaction_history(), alone.transaction_history());
        assert_eq!(clients[0].available(), wide(1.5));
        assert_eq!(clients[0].held(), wide(1.0));
        assert_eq!(clients[0].total(), wide(2.5));
        assert_eq!(clients[1].id(), 2);
        assert!(clients[1].locked());
        assert_eq!(clients[1].total(), wide(0.0));
    }
}
