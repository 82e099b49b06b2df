//! Per-client account state and the five ledger operation handlers.
//!
//! All monetary quantities are fixed-point decimals with four
//! fractional digits, stored as `i64` multiples of one ten-thousandth
//! of a currency unit (so `21000` denotes `2.1`). Every balance is
//! therefore exact at the canonical precision, and the bookkeeping
//! identity `total == available + held` holds without any rounding
//! tolerance. An operation that would push a balance outside the
//! representable `i64` range is rejected with
//! [`AccountError::BalanceOutOfRange`] and leaves the account
//! unchanged.

use vstd::prelude::*;
use vstd::slice::slice_index_get;

verus! {

/// Why an operation was rejected. Rejections are local to one
/// transaction: the caller records them and continues with the next
/// transaction of the same client.
#[derive(Clone, Copy, Debug, PartialEq, Eq, Structural)]
#[non_exhaustive]
pub enum AccountError {
    /// A withdrawal asked for more than the available funds (or for a
    /// non-positive amount).
    BalanceIsLow,
    /// The account was locked by an earlier chargeback; it rejects
    /// every further operation.
    AccountIsLocked,
    /// A dispute, resolve or chargeback named a `tax` reference for
    /// which no amount-bearing transaction (or, for resolve and
    /// chargeback, no prior dispute record) exists in the client's
    /// history.
    ReferenceNotFound,
    /// A deposit carried a non-positive amount.
    InvalidAmount,
    /// A resolve or chargeback would release more funds than are held.
    InvalidHeld,
    /// Applying the operation would take a balance outside the range
    /// representable at the canonical fixed-point precision.
    BalanceOutOfRange,
    /// The available funds went negative: possible fraud, flagged for
    /// manual review.
    InvalidAvailableAmount,
}

impl AccountError {
    /// A short human-readable description, for audit logging.
    pub fn message(&self) -> (m: &'static str)
        ensures
            m@ == self.spec_message(),
    {
        match self {
            AccountError::BalanceIsLow => "doesn't have enough funds to process the transaction",
            AccountError::AccountIsLocked => "account is locked, can't withdraw or deposit funds",
            AccountError::ReferenceNotFound => "the operation didn't find the referenced transaction ID",
            AccountError::InvalidAmount => "the amount is invalid",
            AccountError::InvalidHeld => "the held amount has already been released",
            AccountError::BalanceOutOfRange => "the amount can't be represented at the canonical precision",
            AccountError::InvalidAvailableAmount => "possible fraud, manual check is necessary",
        }
    }

    /// The description returned by [`AccountError::message`].
    pub open spec fn spec_message(self) -> Seq<char> {
        match self {
            AccountError::BalanceIsLow => "doesn't have enough funds to process the transaction"@,
            AccountError::AccountIsLocked => "account is locked, can't withdraw or deposit funds"@,
            AccountError::ReferenceNotFound => "the operation didn't find the referenced transaction ID"@,
            AccountError::InvalidAmount => "the amount is invalid"@,
            AccountError::InvalidHeld => "the held amount has already been released"@,
            AccountError::BalanceOutOfRange => "the amount can't be represented at the canonical precision"@,
            AccountError::InvalidAvailableAmount => "possible fraud, manual check is necessary"@,
        }
    }
}

/// One ledger event, as decoded from the input stream.
///
/// `operation` names the event kind (`"deposit"`, `"withdraw"`,
/// `"dispute"`, `"resolve"` or `"chargeback"`; anything else is
/// silently ignored when a history is replayed). `tax` is the
/// transaction's reference identifier: a deposit or withdrawal carries
/// its own, while a dispute, resolve or chargeback names the earlier
/// transaction it points back at. `amount` is the fixed-point value
/// moved; it must be present exactly for deposits and withdrawals.
#[derive(Debug)]
pub struct Transaction {
    pub operation: String,
    pub client: u16,
    pub tax: u32,
    pub amount: Option<i64>,
}

impl Clone for Transaction {
    /// An exact copy of the record.
    fn clone(&self) -> (t: Transaction)
        ensures
            t == *self,
    {
        Transaction {
            operation: self.operation.clone(),
            client: self.client,
            tax: self.tax,
            amount: self.amount,
        }
    }
}

/// The mathematical image of a [`Transaction`]: the operation label as
/// a sequence of characters, the rest as plain values.
pub ghost struct TransactionView {
    pub operation: Seq<char>,
    pub client: u16,
    pub tax: u32,
    pub amount: Option<i64>,
}

impl View for Transaction {
    type V = TransactionView;

    open spec fn view(&self) -> TransactionView {
        TransactionView {
            operation: self.operation@,
            client: self.client,
            tax: self.tax,
            amount: self.amount,
        }
    }
}

impl Transaction {
    /// A record that moves funds carries an amount. Replaying a
    /// history requires this of every record: a deposit or withdrawal
    /// without an amount has no defined effect.
    pub open spec fn replayable(self) -> bool {
        (self@.operation == op_deposit() || self@.operation == op_withdraw())
            ==> self.amount is Some
    }
}

/// The `operation` label of a deposit.
pub open spec fn op_deposit() -> Seq<char> {
    "deposit"@
}

/// The `operation` label of a withdrawal.
pub open spec fn op_withdraw() -> Seq<char> {
    "withdraw"@
}

/// The `operation` label of a dispute.
pub open spec fn op_dispute() -> Seq<char> {
    "dispute"@
}

/// The `operation` label of a resolve.
pub open spec fn op_resolve() -> Seq<char> {
    "resolve"@
}

/// The `operation` label of a chargeback.
pub open spec fn op_chargeback() -> Seq<char> {
    "chargeback"@
}

/// `x` is representable as a fixed-point balance.
pub open spec fn fits_balance(x: int) -> bool {
    i64::MIN <= x <= i64::MAX
}

/// The views of the transactions in `s`, in order.
pub open spec fn views_of(s: Seq<Transaction>) -> Seq<TransactionView> {
    s.map_values(|t: Transaction| t@)
}

/// `t` can originate a dispute of reference `tax`: it carries that
/// reference and it moved funds.
pub open spec fn matches_reference(t: TransactionView, tax: u32) -> bool {
    t.tax == tax && t.amount is Some
}

/// `t` is a dispute record for reference `tax`.
pub open spec fn matches_dispute(t: TransactionView, tax: u32) -> bool {
    t.tax == tax && t.operation == op_dispute()
}

/// The first amount-bearing transaction in `history` carrying
/// reference `tax`, if any. Dispute, resolve and chargeback all
/// locate their originating transaction this way; when a reference is
/// reused, the earliest record wins.
pub open spec fn first_reference(history: Seq<TransactionView>, tax: u32) -> Option<TransactionView>
    decreases history.len(),
{
    if history.len() == 0 {
        None
    } else if matches_reference(history[0], tax) {
        Some(history[0])
    } else {
        first_reference(history.skip(1), tax)
    }
}

/// `history` holds a dispute record for reference `tax`.
pub open spec fn has_dispute(history: Seq<TransactionView>, tax: u32) -> bool {
    exists|i: int| 0 <= i < history.len() && matches_dispute(#[trigger] history[i], tax)
}

/// Skipping a matchless prefix does not change the first match.
proof fn lemma_first_reference_skip(history: Seq<TransactionView>, tax: u32, k: int)
    requires
        0 <= k <= history.len(),
        forall|j: int| 0 <= j < k ==> !matches_reference(#[trigger] history[j], tax),
    ensures
        first_reference(history, tax) == first_reference(history.skip(k), tax),
    decreases k,
{
    if k > 0 {
        assert(history.skip(1).len() == history.len() - 1);
        assert(forall|j: int|
            0 <= j < k - 1 ==> #[trigger] history.skip(1)[j] == history[j + 1]);
        lemma_first_reference_skip(history.skip(1), tax, k - 1);
        assert(history.skip(1).skip(k - 1) =~= history.skip(k));
    } else {
        assert(history.skip(0) =~= history);
    }
}

/// The index of the first amount-bearing transaction in `transactions`
/// carrying reference `tax`, if any.
fn find_reference(transactions: &[Transaction], tax: u32) -> (r: Option<usize>)
    ensures
        match r {
            Some(i) => {
                &&& i < transactions@.len()
                &&& matches_reference(transactions@[i as int]@, tax)
                &&& first_reference(views_of(transactions@), tax)
                    == Some(transactions@[i as int]@)
            },
            None => first_reference(views_of(transactions@), tax) is None,
        },
{
    let ghost hv = views_of(transactions@);
    let mut k: usize = 0;
    while k < transactions.len()
        invariant
            k <= transactions@.len(),
            hv == views_of(transactions@),
            forall|j: int| 0 <= j < k ==> !matches_reference(#[trigger] hv[j], tax),
        decreases transactions@.len() - k,
    {
        let t = slice_index_get(transactions, k);
        if t.tax == tax && t.amount.is_some() {
            proof {
                lemma_first_reference_skip(hv, tax, k as int);
                assert(hv.skip(k as int)[0] == hv[k as int]);
            }
            return Some(k);
        }
        k = k + 1;
    }
    proof {
        lemma_first_reference_skip(hv, tax, hv.len() as int);
        assert(hv.skip(hv.len() as int).len() == 0);
    }
    None
}

/// Whether `transactions` holds a dispute record for reference `tax`.
fn contains_dispute(transactions: &[Transaction], tax: u32) -> (r: bool)
    ensures
        r == has_dispute(views_of(transactions@), tax),
{
    let ghost hv = views_of(transactions@);
    let mut k: usize = 0;
    while k < transactions.len()
        invariant
            k <= transactions@.len(),
            hv == views_of(transactions@),
            forall|j: int| 0 <= j < k ==> !matches_dispute(#[trigger] hv[j], tax),
        decreases transactions@.len() - k,
    {
        let t = slice_index_get(transactions, k);
        if t.tax == tax && t.operation == "dispute".to_owned() {
            proof {
                assert(matches_dispute(hv[k as int], tax));
            }
            return true;
        }
        k = k + 1;
    }
    false
}

/// Per-client account state. Created with all balances zero on the
/// first transaction seen for a client, then mutated only by the five
/// operation handlers, and reported once at the end of the batch.
#[derive(Clone, Copy, Debug, PartialEq, Eq, Structural)]
pub struct Account {
    pub client: u16,
    pub available: i64,
    pub held: i64,
    pub total: i64,
    pub locked: bool,
}

impl Default for Account {
    /// A fresh, unlocked account for client `0`.
    fn default() -> (a: Account)
        ensures
            a == Account::spec_fresh(0u16),
    {
        Account { client: 0, available: 0, held: 0, total: 0, locked: false }
    }
}

impl Account {
    /// A fresh, unlocked account for `client`, with all balances zero.
    pub open spec fn spec_fresh(client: u16) -> Account {
        Account { client, available: 0, held: 0, total: 0, locked: false }
    }

    /// The bookkeeping identity: the total is exactly the available
    /// funds plus the held funds. Every handler preserves it.
    pub open spec fn wf(self) -> bool {
        self.total == self.available + self.held
    }

    /// A fresh, unlocked account for `client`, with all balances zero.
    pub fn new(client: u16) -> (a: Account)
        ensures
            a == Account::spec_fresh(client),
    {
        Account { client, available: 0, held: 0, total: 0, locked: false }
    }

    /// What a deposit of `v` does to `a`: the new state and the
    /// outcome. A rejected deposit leaves the state unchanged.
    pub open spec fn spec_deposit(a: Account, v: i64) -> (Account, Result<(), AccountError>) {
        if a.locked {
            (a, Err(AccountError::AccountIsLocked))
        } else if v <= 0 {
            (a, Err(AccountError::InvalidAmount))
        } else if !fits_balance(a.total + v) || !fits_balance(a.available + v) {
            (a, Err(AccountError::BalanceOutOfRange))
        } else {
            (
                Account {
                    total: (a.total + v) as i64,
                    available: (a.available + v) as i64,
                    ..a
                },
                Ok(()),
            )
        }
    }

    /// What a withdrawal of `v` does to `a`.
    pub open spec fn spec_withdraw(a: Account, v: i64) -> (Account, Result<(), AccountError>) {
        if a.locked {
            (a, Err(AccountError::AccountIsLocked))
        } else if v <= 0 || v > a.available {
            (a, Err(AccountError::BalanceIsLow))
        } else if !fits_balance(a.total - v) {
            (a, Err(AccountError::BalanceOutOfRange))
        } else {
            (
                Account {
                    total: (a.total - v) as i64,
                    available: (a.available - v) as i64,
                    ..a
                },
                Ok(()),
            )
        }
    }

    /// Credit the transaction's amount to the account: the total and
    /// the available funds both grow by it.
    ///
    /// Rejected (leaving the account unchanged) when the account is
    /// locked, when the amount is not positive, or when a balance
    /// would leave the representable range.
    pub fn deposit(&mut self, transaction: &Transaction) -> (r: Result<String, AccountError>)
        requires
            transaction.amount is Some,
        ensures
            *final(self) == Account::spec_deposit(*old(self), transaction.amount.unwrap()).0,
            r is Ok <==> Account::spec_deposit(*old(self), transaction.amount.unwrap()).1 is Ok,
            r matches Err(e) ==> Account::spec_deposit(
                *old(self),
                transaction.amount.unwrap(),
            ).1 == Err::<(), AccountError>(e),
            r matches Ok(m) ==> m@ == "deposit accepted"@,
            old(self).wf() ==> final(self).wf(),
    {
        let value = transaction.amount.unwrap();

        if self.locked {
            return Err(AccountError::AccountIsLocked);
        }
        if value <= 0 {
            return Err(AccountError::InvalidAmount);
        }

        let new_total = match self.total.checked_add(value) {
            Some(x) => x,
            None => return Err(AccountError::BalanceOutOfRange),
        };
        let new_available = match self.available.checked_add(value) {
            Some(x) => x,
            None => return Err(AccountError::BalanceOutOfRange),
        };

        self.total = new_total;
        self.available = new_available;
        Ok("deposit accepted".to_owned())
    }

    /// Debit the transaction's amount from the account: the total and
    /// the available funds both shrink by it.
    ///
    /// Rejected (leaving the account unchanged) when the account is
    /// locked, when the amount is not positive or exceeds the
    /// available funds, or when the total would leave the
    /// representable range.
    pub fn withdraw(&mut self, transaction: &Transaction) -> (r: Result<String, AccountError>)
        requires
            transaction.amount is Some,
        ensures
            *final(self) == Account::spec_withdraw(*old(self), transaction.amount.unwrap()).0,
            r is Ok <==> Account::spec_withdraw(*old(self), transaction.amount.unwrap()).1 is Ok,
            r matches Err(e) ==> Account::spec_withdraw(
                *old(self),
                transaction.amount.unwrap(),
            ).1 == Err::<(), AccountError>(e),
            r matches Ok(m) ==> m@ == "withdrawal accepted"@,
            old(self).wf() ==> final(self).wf(),
    {
        if self.locked {
            return Err(AccountError::AccountIsLocked);
        }

        let value = transaction.amount.unwrap();

        if value <= 0 || value > self.available {
            return Err(AccountError::BalanceIsLow);
        }

        let new_total = match self.total.checked_sub(value) {
            Some(x) => x,
            None => return Err(AccountError::BalanceOutOfRange),
        };

        self.total = new_total;
        self.available = self.available - value;
        Ok("withdrawal accepted".to_owned())
    }

    /// What a dispute of reference `tax` does to `a`, given the
    /// client's full ordered `history`.
    pub open spec fn spec_dispute(a: Account, tax: u32, history: Seq<TransactionView>) -> (
        Account,
        Result<(), AccountError>,
    ) {
        if a.locked {
            (a, Err(AccountError::AccountIsLocked))
        } else {
            match first_reference(history, tax) {
                None => (a, Err(AccountError::ReferenceNotFound)),
                Some(t) => {
                    let v = t.amount.unwrap();
                    if !fits_balance(a.held + v) || !fits_balance(a.available - v) {
                        (a, Err(AccountError::BalanceOutOfRange))
                    } else {
                        (
                            Account {
                                held: (a.held + v) as i64,
                                available: (a.available - v) as i64,
                                ..a
                            },
                            Ok(()),
                        )
                    }
                },
            }
        }
    }

    /// What a resolve of reference `tax` does to `a`, given the
    /// client's full ordered `history`.
    pub open spec fn spec_resolve(a: Account, tax: u32, history: Seq<TransactionView>) -> (
        Account,
        Result<(), AccountError>,
    ) {
        if a.locked {
            (a, Err(AccountError::AccountIsLocked))
        } else {
            match first_reference(history, tax) {
                None => (a, Err(AccountError::ReferenceNotFound)),
                Some(t) => {
                    if !has_dispute(history, tax) {
                        (a, Err(AccountError::ReferenceNotFound))
                    } else {
                        let v = t.amount.unwrap();
                        if a.held - v < 0 {
                            (a, Err(AccountError::InvalidHeld))
                        } else if !fits_balance(a.held - v) || !fits_balance(a.available + v) {
                            (a, Err(AccountError::BalanceOutOfRange))
                        } else {
                            (
                                Account {
                                    held: (a.held - v) as i64,
                                    available: (a.available + v) as i64,
                                    ..a
                                },
                                Ok(()),
                            )
                        }
                    }
                },
            }
        }
    }

    /// What a chargeback of reference `tax` does to `a`, given the
    /// client's full ordered `history`.
    ///
    /// On success the account is locked for good and `available` is
    /// recomputed from `total`, with a sign that depends on whether the
    /// disputed transaction was a withdrawal (the client is paid the
    /// withdrawn funds back) or a deposit (the credited funds are
    /// clawed back); `total` is then rebuilt as `held + available`.
    pub open spec fn spec_chargeback(a: Account, tax: u32, history: Seq<TransactionView>) -> (
        Account,
        Result<(), AccountError>,
    ) {
        if a.locked {
            (a, Err(AccountError::AccountIsLocked))
        } else {
            match first_reference(history, tax) {
                None => (a, Err(AccountError::ReferenceNotFound)),
                Some(t) => {
                    if !has_dispute(history, tax) {
                        (a, Err(AccountError::ReferenceNotFound))
                    } else {
                        let v = t.amount.unwrap();
                        if a.held - v < 0 {
                            (a, Err(AccountError::InvalidHeld))
                        } else {
                            let new_held = a.held - v;
                            let new_available = if t.operation == op_withdraw() {
                                a.total + v
                            } else {
                                a.total - v
                            };
                            if !fits_balance(new_held) || !fits_balance(new_available)
                                || !fits_balance(new_held + new_available) {
                                (a, Err(AccountError::BalanceOutOfRange))
                            } else {
                                (
                                    Account {
                                        held: new_held as i64,
                                        available: new_available as i64,
                                        total: (new_held + new_available) as i64,
                                        locked: true,
                                        ..a
                                    },
                                    Ok(()),
                                )
                            }
                        }
                    }
                },
            }
        }
    }

    /// Freeze the disputed funds: the amount of the referenced
    /// transaction moves from `available` to `held`; `total` is
    /// untouched. `available` may go negative — that is accepted and
    /// left for manual review rather than rejected.
    ///
    /// Rejected (leaving the account unchanged) when the account is
    /// locked, when no amount-bearing transaction in `transactions`
    /// carries the reference, or when a balance would leave the
    /// representable range.
    pub fn dispute(&mut self, transaction: &Transaction, transactions: &[Transaction]) -> (r:
        Result<String, AccountError>)
        ensures
            *final(self) == Account::spec_dispute(
                *old(self),
                transaction.tax,
                views_of(transactions@),
            ).0,
            r is Ok <==> Account::spec_dispute(
                *old(self),
                transaction.tax,
                views_of(transactions@),
            ).1 is Ok,
            r matches Err(e) ==> Account::spec_dispute(
                *old(self),
                transaction.tax,
                views_of(transactions@),
            ).1 == Err::<(), AccountError>(e),
            r matches Ok(m) ==> m@ == "dispute opened"@,
            old(self).wf() ==> final(self).wf(),
    {
        if self.locked {
            return Err(AccountError::AccountIsLocked);
        }

        let found = match find_reference(transactions, transaction.tax) {
            Some(i) => slice_index_get(transactions, i),
            None => return Err(AccountError::ReferenceNotFound),
        };
        let value = found.amount.unwrap();

        let new_held = match self.held.checked_add(value) {
            Some(x) => x,
            None => return Err(AccountError::BalanceOutOfRange),
        };
        let new_available = match self.available.checked_sub(value) {
            Some(x) => x,
            None => return Err(AccountError::BalanceOutOfRange),
        };

        self.held = new_held;
        self.available = new_available;
        Ok("dispute opened".to_owned())
    }

    /// Close a dispute in the client's favour: the disputed amount
    /// moves back from `held` to `available`; `total` is untouched.
    ///
    /// Rejected (leaving the account unchanged) when the account is
    /// locked, when the reference or a prior dispute record for it is
    /// missing from `transactions`, when more would be released than is
    /// held, or when a balance would leave the representable range.
    pub fn resolve(&mut self, transaction: &Transaction, transactions: &[Transaction]) -> (r:
        Result<String, AccountError>)
        ensures
            *final(self) == Account::spec_resolve(
                *old(self),
                transaction.tax,
                views_of(transactions@),
            ).0,
            r is Ok <==> Account::spec_resolve(
                *old(self),
                transaction.tax,
                views_of(transactions@),
            ).1 is Ok,
            r matches Err(e) ==> Account::spec_resolve(
                *old(self),
                transaction.tax,
                views_of(transactions@),
            ).1 == Err::<(), AccountError>(e),
            r matches Ok(m) ==> m@ == "dispute resolved"@,
            old(self).wf() ==> final(self).wf(),
    {
        if self.locked {
            return Err(AccountError::AccountIsLocked);
        }

        let found = match find_reference(transactions, transaction.tax) {
            Some(i) => slice_index_get(transactions, i),
            None => return Err(AccountError::ReferenceNotFound),
        };
        if !contains_dispute(transactions, transaction.tax) {
            return Err(AccountError::ReferenceNotFound);
        }
        let value = found.amount.unwrap();

        if self.held < value {
            return Err(AccountError::InvalidHeld);
        }

        let new_held = match self.held.checked_sub(value) {
            Some(x) => x,
            None => return Err(AccountError::BalanceOutOfRange),
        };
        let new_available = match self.available.checked_add(value) {
            Some(x) => x,
            None => return Err(AccountError::BalanceOutOfRange),
        };

        self.held = new_held;
        self.available = new_available;
        Ok("dispute resolved".to_owned())
    }

    /// Close a dispute against the client: release the disputed
    /// amount from `held`, recompute `available` from `total` (with
    /// the sign fixed by the disputed transaction's kind), rebuild
    /// `total` as `held + available`, and lock the account for good.
    ///
    /// Rejected (leaving the account unchanged) when the account is
    /// locked, when the reference or a prior dispute record for it is
    /// missing from `transactions`, when more would be released than is
    /// held, or when a balance would leave the representable range.
    pub fn chargeback(&mut self, transaction: &Transaction, transactions: &[Transaction]) -> (r:
        Result<String, AccountError>)
        ensures
            *final(self) == Account::spec_chargeback(
                *old(self),
                transaction.tax,
                views_of(transactions@),
            ).0,
            r is Ok <==> Account::spec_chargeback(
                *old(self),
                transaction.tax,
                views_of(transactions@),
            ).1 is Ok,
            r matches Err(e) ==> Account::spec_chargeback(
                *old(self),
                transaction.tax,
                views_of(transactions@),
            ).1 == Err::<(), AccountError>(e),
            r matches Ok(m) ==> m@ == "chargeback applied"@,
            old(self).wf() ==> final(self).wf(),
    {
        if self.locked {
            return Err(AccountError::AccountIsLocked);
        }

        let found = match find_reference(transactions, transaction.tax) {
            Some(i) => slice_index_get(transactions, i),
            None => return Err(AccountError::ReferenceNotFound),
        };
        if !contains_dispute(transactions, transaction.tax) {
            return Err(AccountError::ReferenceNotFound);
        }
        let value = found.amount.unwrap();

        if self.held < value {
            return Err(AccountError::InvalidHeld);
        }

        let new_held = match self.held.checked_sub(value) {
            Some(x) => x,
            None => return Err(AccountError::BalanceOutOfRange),
        };
        let from_withdrawal = found.operation == "withdraw".to_owned();
        let new_available = if from_withdrawal {
            match self.total.checked_add(value) {
                Some(x) => x,
                None => return Err(AccountError::BalanceOutOfRange),
            }
        } else {
            match self.total.checked_sub(value) {
                Some(x) => x,
                None => return Err(AccountError::BalanceOutOfRange),
            }
        };
        let new_total = match new_held.checked_add(new_available) {
            Some(x) => x,
            None => return Err(AccountError::BalanceOutOfRange),
        };

        self.held = new_held;
        self.available = new_available;
        self.total = new_total;
        self.locked = true;
        Ok("chargeback applied".to_owned())
    }
}

} // verus!
