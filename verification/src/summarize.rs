//! Replaying transaction histories through the account state machine.
//!
//! Each client's history is replayed in arrival order against a fresh
//! account. A dispute, resolve or chargeback is resolved against the
//! client's *full* history — including records that arrive after it —
//! matching how histories are handed over as complete, already-read
//! batches. Per-transaction rejections are recorded in the outcome of
//! the individual handler and never stop the replay.

use vstd::prelude::*;
use vstd::slice::slice_index_get;

use crate::account::Account;
use crate::account::Transaction;
use crate::account::fits_balance;
use crate::account::TransactionView;
use crate::account::op_chargeback;
use crate::account::op_deposit;
use crate::account::op_dispute;
use crate::account::op_resolve;
use crate::account::op_withdraw;
use crate::account::views_of;

verus! {

/// The account that results from replaying one transaction `t` against
/// `a`, with `history` the client's full ordered history. Unrecognized
/// operation labels are ignored, and a rejected operation leaves the
/// account unchanged.
pub open spec fn spec_step(a: Account, t: TransactionView, history: Seq<TransactionView>) -> Account {
    if t.operation == op_deposit() {
        Account::spec_deposit(a, t.amount.unwrap()).0
    } else if t.operation == op_withdraw() {
        Account::spec_withdraw(a, t.amount.unwrap()).0
    } else if t.operation == op_dispute() {
        Account::spec_dispute(a, t.tax, history).0
    } else if t.operation == op_resolve() {
        Account::spec_resolve(a, t.tax, history).0
    } else if t.operation == op_chargeback() {
        Account::spec_chargeback(a, t.tax, history).0
    } else {
        a
    }
}

/// The account after replaying the first `n` records of `history`
/// against a fresh account for `client`.
pub open spec fn spec_replay_prefix(client: u16, history: Seq<TransactionView>, n: int) -> Account
    decreases n,
{
    if n <= 0 {
        Account::spec_fresh(client)
    } else {
        spec_step(spec_replay_prefix(client, history, n - 1), history[n - 1], history)
    }
}

/// The final account of `client` after replaying its whole `history`.
pub open spec fn spec_summarize_client(client: u16, history: Seq<TransactionView>) -> Account {
    spec_replay_prefix(client, history, history.len() as int)
}

/// Whether the record's operation label is `label`.
fn operation_is(transaction: &Transaction, label: &str) -> (r: bool)
    ensures
        r == (transaction@.operation == label@),
{
    transaction.operation == label.to_owned()
}

/// Replay one client's full history, in order, against a fresh
/// account.
fn summarize_client(client: u16, transactions: &Vec<Transaction>) -> (a: Account)
    requires
        forall|j: int| 0 <= j < transactions@.len()
            ==> (#[trigger] transactions@[j]).replayable(),
    ensures
        a == spec_summarize_client(client, views_of(transactions@)),
{
    let ghost hv = views_of(transactions@);
    let mut account = Account::new(client);
    let history = transactions.as_slice();
    let mut k: usize = 0;
    while k < history.len()
        invariant
            k <= transactions@.len(),
            hv == views_of(transactions@),
            history@ == transactions@,
            account == spec_replay_prefix(client, hv, k as int),
            forall|j: int| 0 <= j < transactions@.len()
                ==> (#[trigger] transactions@[j]).replayable(),
        decreases transactions@.len() - k,
    {
        let transaction = slice_index_get(history, k);
        if operation_is(transaction, "deposit") {
            let _ = account.deposit(transaction);
        } else if operation_is(transaction, "withdraw") {
            let _ = account.withdraw(transaction);
        } else if operation_is(transaction, "dispute") {
            let _ = account.dispute(transaction, history);
        } else if operation_is(transaction, "resolve") {
            let _ = account.resolve(transaction, history);
        } else if operation_is(transaction, "chargeback") {
            let _ = account.chargeback(transaction, history);
        }
        k = k + 1;
    }
    account
}

/// Replay every client's history and report the final accounts, one
/// per group, in the groups' order.
///
/// Each group pairs a client identifier with that client's full
/// transaction history in arrival order; groups must be disjoint by
/// client for the result to be meaningful, but each output account
/// depends on nothing beyond its own group, so no cross-client
/// interference is possible.
pub fn summarize_transactions(transactions_by_client: &Vec<(u16, Vec<Transaction>)>) -> (r: Vec<
    Account,
>)
    requires
        forall|i: int, j: int|
            0 <= i < transactions_by_client@.len() && 0 <= j
                < transactions_by_client@[i].1@.len()
                ==> (#[trigger] transactions_by_client@[i].1@[j]).replayable(),
    ensures
        r@.len() == transactions_by_client@.len(),
        forall|i: int| 0 <= i < r@.len() ==> #[trigger] r@[i] == spec_summarize_client(
            transactions_by_client@[i].0,
            views_of(transactions_by_client@[i].1@),
        ),
{
    let mut summarized: Vec<Account> = Vec::new();
    let mut i: usize = 0;
    while i < transactions_by_client.len()
        invariant
            i <= transactions_by_client@.len(),
            summarized@.len() == i,
            forall|m: int| 0 <= m < i ==> #[trigger] summarized@[m] == spec_summarize_client(
                transactions_by_client@[m].0,
                views_of(transactions_by_client@[m].1@),
            ),
            forall|m: int, j: int|
                0 <= m < transactions_by_client@.len() && 0 <= j
                    < transactions_by_client@[m].1@.len()
                    ==> (#[trigger] transactions_by_client@[m].1@[j]).replayable(),
        decreases transactions_by_client@.len() - i,
    {
        let pair = &transactions_by_client[i];
        let account = summarize_client(pair.0, &pair.1);
        summarized.push(account);
        i = i + 1;
    }
    summarized
}

/// Law: one replay step preserves the bookkeeping identity
/// `total == available + held`.
pub proof fn lemma_step_preserves_invariant(
    a: Account,
    t: TransactionView,
    history: Seq<TransactionView>,
)
    requires
        a.wf(),
    ensures
        spec_step(a, t, history).wf(),
{
}

/// Law: every account a replay produces satisfies the bookkeeping
/// identity `total == available + held` — it holds of the fresh
/// account and every step keeps it.
pub proof fn lemma_replay_preserves_invariant(client: u16, history: Seq<TransactionView>, n: int)
    ensures
        spec_replay_prefix(client, history, n).wf(),
    decreases n,
{
    if n > 0 {
        lemma_replay_preserves_invariant(client, history, n - 1);
        lemma_step_preserves_invariant(
            spec_replay_prefix(client, history, n - 1),
            history[n - 1],
            history,
        );
    }
}

/// Law: once an account is locked, no further operation changes it —
/// every handler rejects, and an unrecognized label is ignored.
pub proof fn lemma_locked_account_unchanged(
    a: Account,
    t: TransactionView,
    history: Seq<TransactionView>,
)
    requires
        a.locked,
    ensures
        spec_step(a, t, history) == a,
{
}

/// Law: two deposits that do not reference each other commute — from
/// any starting account, applying them in either order yields the same
/// account. (Excluded: a pair of positive deposits whose combined sum
/// leaves the representable balance range, where whichever is applied
/// first can succeed alone.) No such law holds once a withdrawal is
/// involved: moving a withdrawal before the deposit that funds it makes
/// it fail for insufficient funds.
pub proof fn lemma_independent_deposits_commute(a: Account, v1: i64, v2: i64)
    requires
        v1 > 0 && v2 > 0 ==> fits_balance(a.total + v1 + v2) && fits_balance(
            a.available + v1 + v2,
        ),
    ensures
        Account::spec_deposit(Account::spec_deposit(a, v1).0, v2).0 == Account::spec_deposit(
            Account::spec_deposit(a, v2).0,
            v1,
        ).0,
{
}

/// Law: replaying identical transaction streams through fresh
/// accounts yields identical final accounts — the replay is a pure
/// function of the client and its history.
pub proof fn lemma_replay_deterministic(
    client: u16,
    first_run: Seq<TransactionView>,
    second_run: Seq<TransactionView>,
)
    requires
        first_run == second_run,
    ensures
        spec_summarize_client(client, first_run) == spec_summarize_client(client, second_run),
{
}

} // verus!
