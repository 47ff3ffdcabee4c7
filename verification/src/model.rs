//! The mathematical model of the ledger: what a sequence of
//! transactions does to the per-client accounts and to the table of
//! deposits, written as specification functions.
//!
//! The executable engine in `engine` is proved to follow `apply_tx`
//! step by step, so everything stated here holds of the running code.

use vstd::prelude::*;

use crate::types::ClientId;
use crate::types::ClientInfo;
use crate::types::ClientState;
use crate::types::DepositRecord;
use crate::types::OutputCsvRecord;
use crate::types::Transaction;
use crate::types::TransactionId;
use crate::types::TransactionType;

verus! {

/// The whole state of a ledger run: the account of every client seen
/// so far, every deposit ever recorded, and the clients in the order
/// they were first seen.
#[verifier::ext_equal]
pub struct LedgerModel {
    pub clients: Map<ClientId, ClientInfo>,
    pub deposits: Map<TransactionId, DepositRecord>,
    pub order: Seq<ClientId>,
}

/// The account a client starts with: nothing available, nothing held,
/// not locked.
pub open spec fn default_account() -> ClientInfo {
    ClientInfo { available: 0, held: 0, locked: false }
}

/// The state before any transaction was processed.
pub open spec fn init_model() -> LedgerModel {
    LedgerModel {
        clients: Map::empty(),
        deposits: Map::empty(),
        order: Seq::empty(),
    }
}

/// The account of client `c`, or the default account if `c` was never
/// seen.
pub open spec fn account_or_default(clients: Map<ClientId, ClientInfo>, c: ClientId) -> ClientInfo {
    if clients.contains_key(c) {
        clients[c]
    } else {
        default_account()
    }
}

/// Looking up a client creates its account: the first transaction that
/// names a client puts the default account into the map, whatever else
/// it does.
pub open spec fn touch(m: LedgerModel, c: ClientId) -> LedgerModel {
    if m.clients.contains_key(c) {
        m
    } else {
        LedgerModel {
            clients: m.clients.insert(c, default_account()),
            deposits: m.deposits,
            order: m.order.push(c),
        }
    }
}

/// What one transaction does to the ledger.
///
/// The account of `t.client` is created first if it did not exist.
/// A locked account ignores every transaction. A deposit records the
/// deposit (overwriting any stale entry with the same id, so a later
/// dispute refers to the newest deposit under that id) and adds to the
/// available funds; a deposit whose amount no balance can hold is
/// ignored, since the fixed-point representation cannot carry it.
/// A withdrawal needs sufficient available funds. A dispute needs a
/// recorded deposit with this id, filed by this client, not already
/// disputed, and available funds covering it; it moves the amount from
/// available to held. A resolve needs the deposit to be under dispute
/// by this client and moves the amount back. A chargeback needs the
/// same, removes the held amount, locks the account, and deletes the
/// deposit record for good. Every other case leaves the state as it
/// was.
pub open spec fn apply_tx(m: LedgerModel, t: Transaction) -> LedgerModel {
    let m1 = touch(m, t.client);
    let acct = m1.clients[t.client];
    if acct.locked {
        m1
    } else {
        match t.tx_type {
            TransactionType::Deposit(amount) => {
                if acct.available + acct.held + amount <= u128::MAX {
                    LedgerModel {
                        clients: m1.clients.insert(
                            t.client,
                            ClientInfo {
                                available: (acct.available + amount) as u128,
                                held: acct.held,
                                locked: acct.locked,
                            },
                        ),
                        deposits: m1.deposits.insert(
                            t.tx,
                            DepositRecord { client: t.client, amount, under_dispute: false },
                        ),
                        order: m1.order,
                    }
                } else {
                    m1
                }
            },
            TransactionType::Withdrawal(amount) => {
                if acct.available >= amount {
                    LedgerModel {
                        clients: m1.clients.insert(
                            t.client,
                            ClientInfo {
                                available: (acct.available - amount) as u128,
                                held: acct.held,
                                locked: acct.locked,
                            },
                        ),
                        deposits: m1.deposits,
                        order: m1.order,
                    }
                } else {
                    m1
                }
            },
            TransactionType::Dispute => {
                if m1.deposits.contains_key(t.tx) {
                    let d = m1.deposits[t.tx];
                    if !d.under_dispute && d.client == t.client && acct.available >= d.amount {
                        LedgerModel {
                            clients: m1.clients.insert(
                                t.client,
                                ClientInfo {
                                    available: (acct.available - d.amount) as u128,
                                    held: (acct.held + d.amount) as u128,
                                    locked: acct.locked,
                                },
                            ),
                            deposits: m1.deposits.insert(
                                t.tx,
                                DepositRecord {
                                    client: d.client,
                                    amount: d.amount,
                                    under_dispute: true,
                                },
                            ),
                            order: m1.order,
                        }
                    } else {
                        m1
                    }
                } else {
                    m1
                }
            },
            TransactionType::Resolve => {
                if m1.deposits.contains_key(t.tx) {
                    let d = m1.deposits[t.tx];
                    if d.under_dispute && d.client == t.client {
                        LedgerModel {
                            clients: m1.clients.insert(
                                t.client,
                                ClientInfo {
                                    available: (acct.available + d.amount) as u128,
                                    held: (acct.held - d.amount) as u128,
                                    locked: acct.locked,
                                },
                            ),
                            deposits: m1.deposits.insert(
                                t.tx,
                                DepositRecord {
                                    client: d.client,
                                    amount: d.amount,
                                    under_dispute: false,
                                },
                            ),
                            order: m1.order,
                        }
                    } else {
                        m1
                    }
                } else {
                    m1
                }
            },
            TransactionType::Chargeback => {
                if m1.deposits.contains_key(t.tx) {
                    let d = m1.deposits[t.tx];
                    if d.under_dispute && d.client == t.client {
                        LedgerModel {
                            clients: m1.clients.insert(
                                t.client,
                                ClientInfo {
                                    available: acct.available,
                                    held: (acct.held - d.amount) as u128,
                                    locked: true,
                                },
                            ),
                            deposits: m1.deposits.remove(t.tx),
                            order: m1.order,
                        }
                    } else {
                        m1
                    }
                } else {
                    m1
                }
            },
        }
    }
}

/// The state after a whole sequence of transactions, folded in
/// delivery order from the empty ledger.
pub open spec fn process_model(txs: Seq<Transaction>) -> LedgerModel
    decreases txs.len(),
{
    if txs.len() == 0 {
        init_model()
    } else {
        apply_tx(process_model(txs.drop_last()), txs.last())
    }
}

/// The same account state, under the type handed back to callers that
/// asked for the final mapping.
pub open spec fn client_state_of(a: ClientInfo) -> ClientState {
    ClientState { available: a.available, held: a.held, locked: a.locked }
}

/// The final mapping from client id to account state.
pub open spec fn states_of(clients: Map<ClientId, ClientInfo>) -> Map<ClientId, ClientState> {
    clients.map_values(|a: ClientInfo| client_state_of(a))
}

/// The report row for client `c` in state `s`: its fields plus the
/// total of available and held funds.
pub open spec fn output_record_spec(c: ClientId, s: ClientState) -> OutputCsvRecord {
    OutputCsvRecord {
        client: c,
        available: s.available,
        held: s.held,
        total: (s.available + s.held) as u128,
        locked: s.locked,
    }
}

/// What one deposit record contributes to the disputed funds of
/// client `c`: its amount if it is that client's and under dispute,
/// nothing otherwise.
pub open spec fn record_contrib(r: DepositRecord, c: ClientId) -> int {
    if r.client == c && r.under_dispute {
        r.amount as int
    } else {
        0
    }
}

/// The disputed funds of client `c`: the sum of the amounts of all
/// recorded deposits of `c` that are currently under dispute.
pub open spec fn disputed_sum(m: Map<TransactionId, DepositRecord>, c: ClientId) -> int
    decreases m.dom().len(),
{
    if m.dom().finite() && m.dom().len() > 0 {
        let k = m.dom().choose();
        record_contrib(m[k], c) + disputed_sum(m.remove(k), c)
    } else {
        0
    }
}

/// The ledger states the engine can actually be in. Balances never
/// overflow when added, the first-seen order lists exactly the known
/// clients once each, and the held funds of every client cover the sum
/// of that client's disputed deposits.
pub open spec fn wf(m: LedgerModel) -> bool {
    &&& m.clients.dom().finite()
    &&& m.deposits.dom().finite()
    &&& m.order.no_duplicates()
    &&& forall|c: ClientId|
        #![trigger m.clients.contains_key(c)]
        #![trigger m.order.contains(c)]
        m.clients.contains_key(c) <==> m.order.contains(c)
    &&& forall|c: ClientId|
        #![trigger m.clients[c]]
        #![trigger m.clients.contains_key(c)]
        m.clients.contains_key(c) ==> m.clients[c].available + m.clients[c].held <= u128::MAX
    &&& forall|c: ClientId| #[trigger] disputed_sum(m.deposits, c) <= account_or_default(m.clients, c).held as int
}

/// The empty ledger is well formed.
pub proof fn lemma_init_wf()
    ensures
        wf(init_model()),
{
    let m = init_model();
    assert(m.deposits.dom() =~= Set::empty());
    assert forall|c: ClientId| #[trigger] disputed_sum(m.deposits, c) <= account_or_default(
        m.clients,
        c,
    ).held as int by {
        assert(disputed_sum(m.deposits, c) == 0);
    }
}

/// Removing a present key splits the disputed sum into that record's
/// contribution and the sum over the rest.
pub proof fn lemma_disputed_sum_remove(
    m: Map<TransactionId, DepositRecord>,
    c: ClientId,
    k: TransactionId,
)
    requires
        m.dom().finite(),
        m.dom().contains(k),
    ensures
        disputed_sum(m, c) == record_contrib(m[k], c) + disputed_sum(m.remove(k), c),
    decreases m.dom().len(),
{
    let k0 = m.dom().choose();
    assert(m.dom().contains(k0));
    if k0 == k {
    } else {
        lemma_disputed_sum_remove(m.remove(k0), c, k);
        lemma_disputed_sum_remove(m.remove(k), c, k0);
        assert(m.remove(k0).remove(k) =~= m.remove(k).remove(k0));
    }
}

/// The disputed sum is never negative.
pub proof fn lemma_disputed_sum_nonneg(m: Map<TransactionId, DepositRecord>, c: ClientId)
    requires
        m.dom().finite(),
    ensures
        0 <= disputed_sum(m, c),
    decreases m.dom().len(),
{
    if m.dom().len() > 0 {
        let k = m.dom().choose();
        assert(m.dom().contains(k));
        lemma_disputed_sum_nonneg(m.remove(k), c);
    }
}

/// A single record never contributes more than the whole sum.
pub proof fn lemma_disputed_sum_member(
    m: Map<TransactionId, DepositRecord>,
    c: ClientId,
    k: TransactionId,
)
    requires
        m.dom().finite(),
        m.dom().contains(k),
    ensures
        record_contrib(m[k], c) <= disputed_sum(m, c),
{
    lemma_disputed_sum_remove(m, c, k);
    lemma_disputed_sum_nonneg(m.remove(k), c);
}

/// How the disputed sum changes when a record is inserted: the new
/// contribution comes in, and whatever an overwritten record
/// contributed goes out.
pub proof fn lemma_disputed_sum_insert(
    m: Map<TransactionId, DepositRecord>,
    c: ClientId,
    k: TransactionId,
    v: DepositRecord,
)
    requires
        m.dom().finite(),
    ensures
        disputed_sum(m.insert(k, v), c) == disputed_sum(m, c) + record_contrib(v, c) - (
        if m.dom().contains(k) {
            record_contrib(m[k], c)
        } else {
            0
        }),
{
    let mi = m.insert(k, v);
    lemma_disputed_sum_remove(mi, c, k);
    if m.dom().contains(k) {
        lemma_disputed_sum_remove(m, c, k);
        assert(mi.remove(k) =~= m.remove(k));
    } else {
        assert(mi.remove(k) =~= m);
    }
}

/// Creating a missing account keeps the ledger well formed and does
/// not change any balance or deposit.
pub proof fn lemma_touch_preserves_wf(m: LedgerModel, c: ClientId)
    requires
        wf(m),
    ensures
        wf(touch(m, c)),
        touch(m, c).clients.contains_key(c),
        touch(m, c).clients[c] == account_or_default(m.clients, c),
        touch(m, c).deposits == m.deposits,
        touch(m, c).clients.dom().contains(c),
{
    if !m.clients.contains_key(c) {
        let m1 = touch(m, c);
        assert(!m.order.contains(c));
        assert(m1.order.no_duplicates()) by {
            assert forall|i: int, j: int|
                0 <= i < m1.order.len() && 0 <= j < m1.order.len() && i != j implies m1.order[i]
                != m1.order[j] by {
                if i < m.order.len() && j < m.order.len() {
                } else if j == m.order.len() {
                    assert(m1.order[i] == m.order[i]);
                    if m.order[i] == c {
                        assert(m.order.contains(c));
                    }
                } else {
                    assert(m1.order[j] == m.order[j]);
                    if m.order[j] == c {
                        assert(m.order.contains(c));
                    }
                }
            }
        }
        assert forall|x: ClientId|
            #![trigger m1.clients.contains_key(x)]
            #![trigger m1.order.contains(x)]
            m1.clients.contains_key(x) <==> m1.order.contains(x) by {
            if x == c {
                assert(m1.order[m.order.len() as int] == c);
                assert(m1.order.contains(c));
            } else {
                if m.order.contains(x) {
                    let i = choose|i: int| 0 <= i < m.order.len() && m.order[i] == x;
                    assert(m1.order[i] == x);
                    assert(m1.order.contains(x));
                }
                if m1.order.contains(x) {
                    let i = choose|i: int| 0 <= i < m1.order.len() && m1.order[i] == x;
                    assert(i < m.order.len());
                    assert(m.order.contains(x));
                }
            }
        }
        assert forall|x: ClientId| #[trigger] disputed_sum(m1.deposits, x) <= account_or_default(
            m1.clients,
            x,
        ).held as int by {
            assert(disputed_sum(m1.deposits, x) <= account_or_default(m.clients, x).held as int);
            assert(account_or_default(m1.clients, x).held == account_or_default(
                m.clients,
                x,
            ).held);
        }
    }
}

/// One step of the state machine keeps the ledger well formed: this is
/// the invariant of the whole run. In particular no balance ever goes
/// negative or overflows, because every arithmetic step below is shown
/// to stay inside the account's bounds.
pub proof fn lemma_apply_tx_preserves_wf(m: LedgerModel, t: Transaction)
    requires
        wf(m),
    ensures
        wf(apply_tx(m, t)),
{
    lemma_touch_preserves_wf(m, t.client);
    let m1 = touch(m, t.client);
    let c = t.client;
    let acct = m1.clients[c];
    let r = apply_tx(m, t);
    if !acct.locked {
        match t.tx_type {
            TransactionType::Deposit(amount) => {
                if acct.available + acct.held + amount <= u128::MAX {
                    let rec = DepositRecord { client: c, amount, under_dispute: false };
                    assert forall|x: ClientId| #[trigger] disputed_sum(r.deposits, x)
                        <= account_or_default(r.clients, x).held as int by {
                        lemma_disputed_sum_insert(m1.deposits, x, t.tx, rec);
                        assert(account_or_default(r.clients, x).held == account_or_default(
                            m1.clients,
                            x,
                        ).held);
                    }
                }
            },
            TransactionType::Withdrawal(amount) => {
                if acct.available >= amount {
                    assert forall|x: ClientId| #[trigger] disputed_sum(r.deposits, x)
                        <= account_or_default(r.clients, x).held as int by {
                        assert(disputed_sum(r.deposits, x) == disputed_sum(m1.deposits, x));
                        assert(account_or_default(r.clients, x).held == account_or_default(
                            m1.clients,
                            x,
                        ).held);
                    }
                }
            },
            TransactionType::Dispute => {
                if m1.deposits.contains_key(t.tx) {
                    let d = m1.deposits[t.tx];
                    if !d.under_dispute && d.client == c && acct.available >= d.amount {
                        let rec = DepositRecord {
                            client: d.client,
                            amount: d.amount,
                            under_dispute: true,
                        };
                        assert(acct.held + d.amount <= u128::MAX);
                        assert forall|x: ClientId| #[trigger] disputed_sum(r.deposits, x)
                            <= account_or_default(r.clients, x).held as int by {
                            lemma_disputed_sum_insert(m1.deposits, x, t.tx, rec);
                            if x == c {
                                assert(record_contrib(d, c) == 0);
                                assert(account_or_default(r.clients, c).held == acct.held
                                    + d.amount);
                            } else {
                                assert(record_contrib(rec, x) == 0);
                                assert(record_contrib(d, x) == 0);
                                assert(account_or_default(r.clients, x).held
                                    == account_or_default(m1.clients, x).held);
                            }
                        }
                    }
                }
            },
            TransactionType::Resolve => {
                if m1.deposits.contains_key(t.tx) {
                    let d = m1.deposits[t.tx];
                    if d.under_dispute && d.client == c {
                        lemma_disputed_sum_member(m1.deposits, c, t.tx);
                        assert(d.amount <= acct.held);
                        let rec = DepositRecord {
                            client: d.client,
                            amount: d.amount,
                            under_dispute: false,
                        };
                        assert forall|x: ClientId| #[trigger] disputed_sum(r.deposits, x)
                            <= account_or_default(r.clients, x).held as int by {
                            lemma_disputed_sum_insert(m1.deposits, x, t.tx, rec);
                            if x == c {
                                assert(record_contrib(d, c) == d.amount as int);
                                assert(account_or_default(r.clients, c).held == acct.held
                                    - d.amount);
                            } else {
                                assert(record_contrib(rec, x) == 0);
                                assert(record_contrib(d, x) == 0);
                                assert(account_or_default(r.clients, x).held
                                    == account_or_default(m1.clients, x).held);
                            }
                        }
                    }
                }
            },
            TransactionType::Chargeback => {
                if m1.deposits.contains_key(t.tx) {
                    let d = m1.deposits[t.tx];
                    if d.under_dispute && d.client == c {
                        lemma_disputed_sum_member(m1.deposits, c, t.tx);
                        assert(d.amount <= acct.held);
                        assert forall|x: ClientId| #[trigger] disputed_sum(r.deposits, x)
                            <= account_or_default(r.clients, x).held as int by {
                            lemma_disputed_sum_remove(m1.deposits, x, t.tx);
                            if x == c {
                                assert(record_contrib(d, c) == d.amount as int);
                                assert(account_or_default(r.clients, c).held == acct.held
                                    - d.amount);
                            } else {
                                assert(record_contrib(d, x) == 0);
                                assert(account_or_default(r.clients, x).held
                                    == account_or_default(m1.clients, x).held);
                            }
                        }
                    }
                }
            },
        }
    }
}

/// Every state the fold reaches from the empty ledger is well formed.
pub proof fn lemma_process_model_wf(txs: Seq<Transaction>)
    ensures
        wf(process_model(txs)),
    decreases txs.len(),
{
    if txs.len() == 0 {
        lemma_init_wf();
    } else {
        lemma_process_model_wf(txs.drop_last());
        lemma_apply_tx_preserves_wf(process_model(txs.drop_last()), txs.last());
    }
}

} // verus!
