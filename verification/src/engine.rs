//! The executable ledger engine, proved to follow the model in
//! `model` step by step.

use vstd::prelude::*;

use std::collections::HashMap;

use crate::model::apply_tx;
use crate::model::client_state_of;
use crate::model::init_model;
use crate::model::lemma_apply_tx_preserves_wf;
use crate::model::lemma_disputed_sum_member;
use crate::model::lemma_init_wf;
use crate::model::lemma_touch_preserves_wf;
use crate::model::output_record_spec;
use crate::model::process_model;
use crate::model::record_contrib;
use crate::model::states_of;
use crate::model::touch;
use crate::model::wf;
use crate::model::LedgerModel;
use crate::types::ClientId;
use crate::types::ClientInfo;
use crate::types::ClientState;
use crate::types::DepositRecord;
use crate::types::OutputCsvRecord;
use crate::types::Transaction;
use crate::types::TransactionId;
use crate::types::TransactionType;

verus! {

/// The running state of one processing run: the account of every
/// client seen so far, every deposit recorded, and the clients in
/// first-seen order.
pub struct Ledger {
    clients: HashMap<ClientId, ClientInfo>,
    deposits: HashMap<TransactionId, DepositRecord>,
    order: Vec<ClientId>,
}

impl View for Ledger {
    type V = LedgerModel;

    closed spec fn view(&self) -> LedgerModel {
        LedgerModel { clients: self.clients@, deposits: self.deposits@, order: self.order@ }
    }
}

impl Ledger {
    /// A fresh ledger with no clients and no deposits.
    pub fn new() -> (l: Ledger)
        ensures
            l@ == init_model(),
            wf(l@),
    {
        let l = Ledger {
            clients: HashMap::new(),
            deposits: HashMap::new(),
            order: Vec::new(),
        };
        proof {
            lemma_init_wf();
            assert(l@ =~= init_model());
        }
        l
    }

    /// Hands back the accounts accumulated so far, one per client
    /// ever named.
    pub fn into_clients(self) -> (clients: HashMap<ClientId, ClientInfo>)
        ensures
            clients@ == self@.clients,
    {
        self.clients
    }

    /// Folds one transaction into the ledger, exactly as the model's
    /// `apply_tx` says.
    pub fn apply(&mut self, t: Transaction)
        requires
            wf(old(self)@),
        ensures
            final(self)@ == apply_tx(old(self)@, t),
            wf(final(self)@),
    {
        proof {
            lemma_touch_preserves_wf(old(self)@, t.client);
            lemma_apply_tx_preserves_wf(old(self)@, t);
        }
        let ghost m1 = touch(old(self)@, t.client);
        let client = t.client;
        let tx = t.tx;
        if !self.clients.contains_key(&client) {
            self.clients.insert(client, ClientInfo { available: 0, held: 0, locked: false });
            self.order.push(client);
        }
        proof {
            assert(self@ =~= m1);
        }
        let acct = match self.clients.get(&client) {
            Some(a) => *a,
            None => ClientInfo { available: 0, held: 0, locked: false },
        };
        proof {
            assert(acct == m1.clients[client]);
        }
        if !acct.locked {
            match t.tx_type {
                TransactionType::Deposit(amount) => {
                    let room = u128::MAX - acct.available;
                    if amount <= room && acct.held <= room - amount {
                        self.deposits.insert(
                            tx,
                            DepositRecord { client, amount, under_dispute: false },
                        );
                        self.clients.insert(
                            client,
                            ClientInfo {
                                available: acct.available + amount,
                                held: acct.held,
                                locked: acct.locked,
                            },
                        );
                    }
                },
                TransactionType::Withdrawal(amount) => {
                    if acct.available >= amount {
                        self.clients.insert(
                            client,
                            ClientInfo {
                                available: acct.available - amount,
                                held: acct.held,
                                locked: acct.locked,
                            },
                        );
                    }
                },
                TransactionType::Dispute => {
                    let found = match self.deposits.get(&tx) {
                        Some(d) => Some(*d),
                        None => None,
                    };
                    if let Some(d) = found {
                        if !d.under_dispute && d.client == client && acct.available >= d.amount {
                            proof {
                                assert(acct.available + acct.held <= u128::MAX);
                            }
                            self.clients.insert(
                                client,
                                ClientInfo {
                                    available: acct.available - d.amount,
                                    held: acct.held + d.amount,
                                    locked: acct.locked,
                                },
                            );
                            self.deposits.insert(
                                tx,
                                DepositRecord {
                                    client: d.client,
                                    amount: d.amount,
                                    under_dispute: true,
                                },
                            );
                        }
                    }
                },
                TransactionType::Resolve => {
                    let found = match self.deposits.get(&tx) {
                        Some(d) => Some(*d),
                        None => None,
                    };
                    if let Some(d) = found {
                        if d.under_dispute && d.client == client {
                            proof {
                                lemma_disputed_sum_member(m1.deposits, client, tx);
                                assert(record_contrib(m1.deposits[tx], client) == d.amount as int);
                                assert(d.amount <= acct.held);
                                assert(acct.available + acct.held <= u128::MAX);
                            }
                            self.clients.insert(
                                client,
                                ClientInfo {
                                    available: acct.available + d.amount,
                                    held: acct.held - d.amount,
                                    locked: acct.locked,
                                },
                            );
                            self.deposits.insert(
                                tx,
                                DepositRecord {
                                    client: d.client,
                                    amount: d.amount,
                                    under_dispute: false,
                                },
                            );
                        }
                    }
                },
                TransactionType::Chargeback => {
                    let found = match self.deposits.get(&tx) {
                        Some(d) => Some(*d),
                        None => None,
                    };
                    if let Some(d) = found {
                        if d.under_dispute && d.client == client {
                            proof {
                                lemma_disputed_sum_member(m1.deposits, client, tx);
                                assert(record_contrib(m1.deposits[tx], client) == d.amount as int);
                                assert(d.amount <= acct.held);
                            }
                            self.clients.insert(
                                client,
                                ClientInfo {
                                    available: acct.available,
                                    held: acct.held - d.amount,
                                    locked: true,
                                },
                            );
                            self.deposits.remove(&tx);
                        }
                    }
                },
            }
        }
        proof {
            assert(self@ =~= apply_tx(old(self)@, t));
        }
    }
}

/// Folds a whole sequence of transactions, in delivery order, into a
/// fresh ledger.
fn run_ledger(transactions: &Vec<Transaction>) -> (l: Ledger)
    ensures
        l@ == process_model(transactions@),
        wf(l@),
{
    let mut l = Ledger::new();
    proof {
        assert(transactions@.take(0) =~= Seq::<Transaction>::empty());
    }
    let n = transactions.len();
    let mut i: usize = 0;
    while i < n
        invariant
            i <= n,
            n == transactions@.len(),
            wf(l@),
            l@ == process_model(transactions@.take(i as int)),
        decreases n - i,
    {
        let t = transactions[i];
        proof {
            let post = transactions@.take(i as int + 1);
            assert(post.drop_last() =~= transactions@.take(i as int));
            assert(post.last() == transactions@[i as int]);
        }
        l.apply(t);
        i += 1;
    }
    proof {
        assert(transactions@.take(n as int) =~= transactions@);
    }
    l
}

/// Processes the transactions in delivery order and returns the final
/// account of every client that was ever named, exactly as the model
/// `process_model` describes.
pub fn process_transactions(transactions: Vec<Transaction>) -> (clients: HashMap<
    ClientId,
    ClientInfo,
>)
    ensures
        clients@ == process_model(transactions@).clients,
        wf(process_model(transactions@)),
{
    let l = run_ledger(&transactions);
    l.clients
}

/// Like `process_transactions`, but hands the accounts back as
/// `ClientState` values.
pub fn process_transactions_and_return_client_states(transactions: Vec<Transaction>) -> (clients:
    HashMap<ClientId, ClientState>)
    ensures
        clients@ == states_of(process_model(transactions@).clients),
        wf(process_model(transactions@)),
{
    let l = run_ledger(&transactions);
    let mut out: HashMap<ClientId, ClientState> = HashMap::new();
    let n = l.order.len();
    let mut j: usize = 0;
    while j < n
        invariant
            j <= n,
            n == l@.order.len(),
            wf(l@),
            l@ == process_model(transactions@),
            forall|x: ClientId| #[trigger] out@.contains_key(x) <==> l@.order.take(
                j as int,
            ).contains(x),
            forall|x: ClientId|
                out@.contains_key(x) ==> out@[x] == client_state_of(l@.clients[x]),
        decreases n - j,
    {
        let c = l.order[j];
        proof {
            assert(l@.order.contains(l@.order[j as int]));
        }
        let a = match l.clients.get(&c) {
            Some(a) => *a,
            None => ClientInfo { available: 0, held: 0, locked: false },
        };
        out.insert(c, ClientState { available: a.available, held: a.held, locked: a.locked });
        j += 1;
        proof {
            let s0 = l@.order.take(j as int - 1);
            let s1 = l@.order.take(j as int);
            assert(s1 =~= s0.push(c));
            assert forall|x: ClientId| #[trigger] out@.contains_key(x) <==> s1.contains(x) by {
                if x == c {
                    assert(s1[j as int - 1] == c);
                    assert(s1.contains(c));
                } else {
                    if s0.contains(x) {
                        let idx = choose|idx: int| 0 <= idx < s0.len() && s0[idx] == x;
                        assert(s1[idx] == x);
                        assert(s1.contains(x));
                    }
                    if s1.contains(x) {
                        let idx = choose|idx: int| 0 <= idx < s1.len() && s1[idx] == x;
                        assert(idx < j as int - 1);
                        assert(s0[idx] == x);
                        assert(s0.contains(x));
                    }
                }
            }
        }
    }
    proof {
        assert(l@.order.take(n as int) =~= l@.order);
        assert(out@ =~= states_of(l@.clients));
    }
    out
}

impl OutputCsvRecord {
    /// The report row for one client: the account state together with
    /// the total of available and held funds.
    pub fn from(pair: (ClientId, ClientState)) -> (r: OutputCsvRecord)
        requires
            pair.1.available + pair.1.held <= u128::MAX,
        ensures
            r == output_record_spec(pair.0, pair.1),
    {
        let (client, state) = pair;
        OutputCsvRecord {
            client,
            available: state.available,
            held: state.held,
            total: state.available + state.held,
            locked: state.locked,
        }
    }
}

/// Processes the transactions and returns one report row per client,
/// in the order the clients were first seen. Every row's `total` is
/// exactly `available` plus `held`.
pub fn process_transactions_and_return_output_records(transactions: Vec<Transaction>) -> (records:
    Vec<OutputCsvRecord>)
    ensures
        records@.len() == process_model(transactions@).order.len(),
        forall|i: int|
            0 <= i < records@.len() ==> #[trigger] records@[i] == output_record_spec(
                process_model(transactions@).order[i],
                client_state_of(
                    process_model(transactions@).clients[process_model(transactions@).order[i]],
                ),
            ),
        forall|i: int|
            0 <= i < records@.len() ==> #[trigger] records@[i].total as int == records@[i].available
                as int + records@[i].held as int,
{
    let l = run_ledger(&transactions);
    let mut records: Vec<OutputCsvRecord> = Vec::new();
    let n = l.order.len();
    let mut j: usize = 0;
    while j < n
        invariant
            j <= n,
            n == l@.order.len(),
            wf(l@),
            l@ == process_model(transactions@),
            records@.len() == j,
            forall|i: int|
                0 <= i < j ==> #[trigger] records@[i] == output_record_spec(
                    l@.order[i],
                    client_state_of(l@.clients[l@.order[i]]),
                ),
            forall|i: int|
                0 <= i < j ==> #[trigger] records@[i].total as int == records@[i].available as int
                    + records@[i].held as int,
        decreases n - j,
    {
        let c = l.order[j];
        proof {
            assert(l@.order.contains(l@.order[j as int]));
        }
        let a = match l.clients.get(&c) {
            Some(a) => *a,
            None => ClientInfo { available: 0, held: 0, locked: false },
        };
        let row = OutputCsvRecord::from(
            (c, ClientState { available: a.available, held: a.held, locked: a.locked }),
        );
        records.push(row);
        j += 1;
    }
    records
}

} // verus!
