//! The guarantees the ledger gives, stated over the model and proved
//! once and for all: deposits accumulate exactly, rejected
//! transactions change nothing, and a locked account is frozen for
//! good.

use vstd::prelude::*;

use crate::model::account_or_default;
use crate::model::apply_tx;
use crate::model::process_model;
use crate::model::wf;
use crate::model::LedgerModel;
use crate::types::ClientId;
use crate::types::Transaction;
use crate::types::TransactionType;

verus! {

/// Every transaction in the sequence is a deposit filed by client `c`.
pub open spec fn all_deposits_for(txs: Seq<Transaction>, c: ClientId) -> bool {
    forall|i: int|
        0 <= i < txs.len() ==> (#[trigger] txs[i]).client == c && txs[i].tx_type is Deposit
}

/// The amount a deposit or withdrawal carries; zero for the other
/// kinds.
pub open spec fn tx_amount(t: Transaction) -> int {
    match t.tx_type {
        TransactionType::Deposit(a) => a as int,
        TransactionType::Withdrawal(a) => a as int,
        _ => 0,
    }
}

/// The sum of the amounts carried by a sequence of deposits.
pub open spec fn deposit_total(txs: Seq<Transaction>) -> int
    decreases txs.len(),
{
    if txs.len() == 0 {
        0
    } else {
        deposit_total(txs.drop_last()) + tx_amount(txs.last())
    }
}

/// The state reached from `m` after folding in a further sequence of
/// transactions, in order.
pub open spec fn apply_all(m: LedgerModel, txs: Seq<Transaction>) -> LedgerModel
    decreases txs.len(),
{
    if txs.len() == 0 {
        m
    } else {
        apply_tx(apply_all(m, txs.drop_last()), txs.last())
    }
}

/// Processing a sequence is folding it into the empty ledger.
pub proof fn lemma_process_model_is_apply_all(txs: Seq<Transaction>)
    ensures
        process_model(txs) == apply_all(crate::model::init_model(), txs),
    decreases txs.len(),
{
    if txs.len() > 0 {
        lemma_process_model_is_apply_all(txs.drop_last());
    }
}

/// A client who only deposits ends with exactly the sum of the
/// deposited amounts available, nothing held, and the account not
/// locked — the fixed-point arithmetic loses nothing. The one
/// assumption is that the sum itself is representable.
pub proof fn lemma_deposits_accumulate(txs: Seq<Transaction>, c: ClientId)
    requires
        all_deposits_for(txs, c),
        deposit_total(txs) <= u128::MAX,
    ensures
        account_or_default(process_model(txs).clients, c).available as int == deposit_total(txs),
        account_or_default(process_model(txs).clients, c).held == 0,
        !account_or_default(process_model(txs).clients, c).locked,
    decreases txs.len(),
{
    if txs.len() > 0 {
        let pre = txs.drop_last();
        let t = txs.last();
        assert(txs[txs.len() - 1] == t);
        assert(all_deposits_for(pre, c)) by {
            assert forall|i: int|
                0 <= i < pre.len() implies (#[trigger] pre[i]).client == c
                && pre[i].tx_type is Deposit by {
                assert(pre[i] == txs[i]);
            }
        }
        assert(tx_amount(t) >= 0);
        lemma_deposits_accumulate(pre, c);
        let m_pre = process_model(pre);
        let a = account_or_default(m_pre.clients, c);
        match t.tx_type {
            TransactionType::Deposit(amount) => {
                assert(a.available + a.held + amount <= u128::MAX);
            },
            _ => {
                assert(false);
            },
        }
    }
}

/// A withdrawal that asks for more than is available changes nothing.
pub proof fn lemma_withdrawal_insufficient_is_noop(m: LedgerModel, t: Transaction)
    requires
        t.tx_type is Withdrawal,
        m.clients.contains_key(t.client),
        (m.clients[t.client].available as int) < tx_amount(t),
    ensures
        apply_tx(m, t) == m,
{
}

/// A dispute that names no recorded deposit, a deposit of a different
/// client, or a deposit already under dispute changes nothing.
pub proof fn lemma_dispute_rejected_is_noop(m: LedgerModel, t: Transaction)
    requires
        t.tx_type is Dispute,
        m.clients.contains_key(t.client),
        !m.deposits.contains_key(t.tx) || m.deposits[t.tx].client != t.client
            || m.deposits[t.tx].under_dispute,
    ensures
        apply_tx(m, t) == m,
{
}

/// A resolve or chargeback that names no recorded deposit, a deposit
/// not currently under dispute, or a deposit of a different client
/// changes nothing.
pub proof fn lemma_settlement_rejected_is_noop(m: LedgerModel, t: Transaction)
    requires
        t.tx_type is Resolve || t.tx_type is Chargeback,
        m.clients.contains_key(t.client),
        !m.deposits.contains_key(t.tx) || !m.deposits[t.tx].under_dispute
            || m.deposits[t.tx].client != t.client,
    ensures
        apply_tx(m, t) == m,
{
}

/// A chargeback that is accepted locks the account and deletes the
/// deposit record, so the deposit can never be referenced again.
pub proof fn lemma_chargeback_locks(m: LedgerModel, t: Transaction)
    requires
        t.tx_type is Chargeback,
        !account_or_default(m.clients, t.client).locked,
        m.deposits.contains_key(t.tx),
        m.deposits[t.tx].under_dispute,
        m.deposits[t.tx].client == t.client,
    ensures
        account_or_default(apply_tx(m, t).clients, t.client).locked,
        !apply_tx(m, t).deposits.contains_key(t.tx),
{
}

/// Any transaction a locked client files changes nothing at all.
pub proof fn lemma_locked_is_noop(m: LedgerModel, t: Transaction)
    requires
        account_or_default(m.clients, t.client).locked,
    ensures
        apply_tx(m, t) == m,
{
}

/// No transaction of anyone touches a locked account: the lock and
/// the balances stay exactly as they are.
pub proof fn lemma_locked_account_untouched(m: LedgerModel, t: Transaction, c: ClientId)
    requires
        account_or_default(m.clients, c).locked,
    ensures
        account_or_default(apply_tx(m, t).clients, c) == account_or_default(m.clients, c),
{
    if t.client == c {
        lemma_locked_is_noop(m, t);
    }
}

/// Once locked, locked for the rest of the run: however the stream
/// goes on, the client's account never changes again.
pub proof fn lemma_locked_forever(m: LedgerModel, txs: Seq<Transaction>, c: ClientId)
    requires
        account_or_default(m.clients, c).locked,
    ensures
        account_or_default(apply_all(m, txs).clients, c) == account_or_default(m.clients, c),
    decreases txs.len(),
{
    if txs.len() > 0 {
        lemma_locked_forever(m, txs.drop_last(), c);
        lemma_locked_account_untouched(apply_all(m, txs.drop_last()), txs.last(), c);
    }
}

/// Every reachable ledger state is well formed; in particular no
/// account's available or held funds ever overflow when added, so
/// every report row's total is exact.
pub proof fn lemma_reachable_states_sound(txs: Seq<Transaction>, c: ClientId)
    ensures
        wf(process_model(txs)),
        account_or_default(process_model(txs).clients, c).available as int + account_or_default(
            process_model(txs).clients,
            c,
        ).held as int <= u128::MAX,
{
    crate::model::lemma_process_model_wf(txs);
}

} // verus!
