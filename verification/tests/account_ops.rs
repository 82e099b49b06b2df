use processing_bank_transactions_with_rust::Account;
use processing_bank_transactions_with_rust::AccountError;
use processing_bank_transactions_with_rust::Transaction;

/// A decimal amount at the canonical four-digit fixed-point precision.
fn fp(x: f64) -> i64 {
    (x * 10000.0).round() as i64
}

fn tx(operation: &str, client: u16, tax: u32, amount: Option<f64>) -> Transaction {
    Transaction { operation: operation.to_string(), client, tax, amount: amount.map(fp) }
}

// 1. Deposit
#[test]
fn deposit() {
    let mut account: Account = Account { client: 1, ..Default::default() };
    let mut transactions: Vec<Transaction> = Vec::new();

    transactions.push(tx("deposit", 1, 1, Some(2.1)));
    transactions.push(tx("deposit", 1, 2, Some(1.3)));

    let _ = account.deposit(&transactions[0]);
    let _ = account.deposit(&transactions[1]);

    assert_eq!(account.total, fp(3.4));
}

// 2. Withdraw
#[test]
fn withdraw() {
    let mut account: Account = Account { client: 2, ..Default::default() };
    let mut transactions: Vec<Transaction> = Vec::new();

    transactions.push(tx("deposit", 2, 1, Some(2.1)));
    transactions.push(tx("withdraw", 2, 2, Some(3.1)));
    transactions.push(tx("withdraw", 2, 3, Some(2.0)));

    let _ = account.deposit(&transactions[0]);
    let _ = account.withdraw(&transactions[2]);

    assert_eq!(account.withdraw(&transactions[1]), Err(AccountError::BalanceIsLow));
    assert_eq!(account.total, fp(0.1));
}

#[test]
fn dispute_and_resolve_withdraw() {
    let mut account: Account = Account { client: 2, ..Default::default() };
    let mut transactions: Vec<Transaction> = Vec::new();

    transactions.push(tx("deposit", 2, 1, Some(2.1)));
    transactions.push(tx("withdraw", 2, 3, Some(2.0)));
    transactions.push(tx("dispute", 2, 3, None));
    transactions.push(tx("resolve", 2, 3, None));

    let _ = account.deposit(&transactions[0]);
    let _ = account.withdraw(&transactions[1]);
    let _ = account.dispute(&transactions[2], &transactions);

    assert_eq!(account.held, fp(2.0));
    assert_eq!(account.available, fp(-1.9));
    assert_eq!(account.total, fp(0.1));

    let _ = account.resolve(&transactions[3], &transactions);

    assert_eq!(account.held, fp(0.0));
    assert_eq!(account.available, fp(0.1));
}

#[test]
fn dispute_and_resolve_deposit() {
    let mut account: Account = Account { client: 2, ..Default::default() };
    let mut transactions: Vec<Transaction> = Vec::new();

    transactions.push(tx("deposit", 2, 1, Some(2.1)));
    transactions.push(tx("withdraw", 2, 3, Some(2.0)));
    transactions.push(tx("dispute", 2, 1, None));
    transactions.push(tx("resolve", 2, 1, None));

    let _ = account.deposit(&transactions[0]);
    let _ = account.withdraw(&transactions[1]);
    let _ = account.dispute(&transactions[2], &transactions);

    assert_eq!(account.held, fp(2.1));
    assert_eq!(account.available, fp(-2.0));
    assert_eq!(account.total, fp(0.1));

    let _ = account.resolve(&transactions[3], &transactions);

    assert_eq!(account.held, fp(0.0));
    assert_eq!(account.available, fp(0.1));
}

#[test]
fn dispute_and_chargeback_withdraw() {
    let mut account: Account = Account { client: 2, ..Default::default() };
    let mut transactions: Vec<Transaction> = Vec::new();

    transactions.push(tx("deposit", 2, 1, Some(2.1)));
    transactions.push(tx("withdraw", 2, 3, Some(2.0)));
    transactions.push(tx("dispute", 2, 3, None));
    transactions.push(tx("chargeback", 2, 3, None));

    // Open dispute for withdraw
    let _ = account.deposit(&transactions[0]);
    let _ = account.withdraw(&transactions[1]);
    let _ = account.dispute(&transactions[2], &transactions);

    assert_eq!(account.held, fp(2.0));
    assert_eq!(account.total, fp(0.1));
    assert_eq!(account.available, fp(-1.9));

    let _ = account.chargeback(&transactions[3], &transactions);

    assert_eq!(account.held, fp(0.0));
    assert_eq!(account.available, fp(2.1));
    assert_eq!(account.locked, true);
}

#[test]
fn dispute_and_chargeback_deposit() {
    let mut account: Account = Account { client: 2, ..Default::default() };
    let mut transactions: Vec<Transaction> = Vec::new();

    transactions.push(tx("deposit", 2, 1, Some(2.1)));
    transactions.push(tx("withdraw", 2, 2, Some(2.0)));
    transactions.push(tx("dispute", 2, 1, None));
    transactions.push(tx("chargeback", 2, 1, None));

    // Open dispute for deposit
    let _ = account.deposit(&transactions[0]);
    let _ = account.withdraw(&transactions[1]);
    let _ = account.dispute(&transactions[2], &transactions);

    assert_eq!(account.held, fp(2.1));
    assert_eq!(account.total, fp(0.1));
    assert_eq!(account.available, fp(-2.0));

    let _ = account.chargeback(&transactions[3], &transactions);

    assert_eq!(account.held, fp(0.0));
    assert_eq!(account.available, fp(-2.0));
    assert_eq!(account.locked, true);
}

#[test]
fn deposit_rejects_non_positive_amount() {
    let mut account: Account = Account { client: 3, ..Default::default() };

    assert_eq!(
        account.deposit(&tx("deposit", 3, 1, Some(0.0))),
        Err(AccountError::InvalidAmount)
    );
    assert_eq!(
        account.deposit(&tx("deposit", 3, 2, Some(-1.5))),
        Err(AccountError::InvalidAmount)
    );
    assert_eq!(account, Account { client: 3, ..Default::default() });
}

#[test]
fn reference_not_found_leaves_account_unchanged() {
    let mut account: Account = Account { client: 4, ..Default::default() };
    let transactions = vec![tx("deposit", 4, 1, Some(2.1))];
    let _ = account.deposit(&transactions[0]);
    let before = account;

    let missing = tx("dispute", 4, 99, None);
    assert_eq!(
        account.dispute(&missing, &transactions),
        Err(AccountError::ReferenceNotFound)
    );
    assert_eq!(account, before);

    let missing = tx("resolve", 4, 99, None);
    assert_eq!(
        account.resolve(&missing, &transactions),
        Err(AccountError::ReferenceNotFound)
    );
    assert_eq!(account, before);

    let missing = tx("chargeback", 4, 99, None);
    assert_eq!(
        account.chargeback(&missing, &transactions),
        Err(AccountError::ReferenceNotFound)
    );
    assert_eq!(account, before);
}

#[test]
fn resolve_without_dispute_record_fails() {
    let mut account: Account = Account { client: 5, ..Default::default() };
    let transactions = vec![tx("deposit", 5, 1, Some(2.1))];
    let _ = account.deposit(&transactions[0]);
    let before = account;

    // The reference exists, but no dispute record does.
    let resolve = tx("resolve", 5, 1, None);
    assert_eq!(
        account.resolve(&resolve, &transactions),
        Err(AccountError::ReferenceNotFound)
    );
    let chargeback = tx("chargeback", 5, 1, None);
    assert_eq!(
        account.chargeback(&chargeback, &transactions),
        Err(AccountError::ReferenceNotFound)
    );
    assert_eq!(account, before);
}

#[test]
fn resolving_more_than_held_fails() {
    let mut account: Account = Account { client: 6, ..Default::default() };
    let transactions = vec![
        tx("deposit", 6, 1, Some(2.1)),
        tx("dispute", 6, 1, None),
        tx("resolve", 6, 1, None),
    ];
    let _ = account.deposit(&transactions[0]);
    let _ = account.dispute(&transactions[1], &transactions);
    let _ = account.resolve(&transactions[2], &transactions);

    assert_eq!(account.held, fp(0.0));
    // Nothing is held any more, so a second resolve must fail.
    assert_eq!(
        account.resolve(&transactions[2], &transactions),
        Err(AccountError::InvalidHeld)
    );
}

#[test]
fn locked_account_rejects_every_operation() {
    let mut account: Account = Account { client: 7, ..Default::default() };
    let transactions = vec![
        tx("deposit", 7, 1, Some(2.1)),
        tx("dispute", 7, 1, None),
        tx("chargeback", 7, 1, None),
    ];
    let _ = account.deposit(&transactions[0]);
    let _ = account.dispute(&transactions[1], &transactions);
    let _ = account.chargeback(&transactions[2], &transactions);
    assert!(account.locked);
    let frozen = account;

    assert_eq!(
        account.deposit(&tx("deposit", 7, 2, Some(1.0))),
        Err(AccountError::AccountIsLocked)
    );
    assert_eq!(
        account.withdraw(&tx("withdraw", 7, 3, Some(1.0))),
        Err(AccountError::AccountIsLocked)
    );
    assert_eq!(
        account.dispute(&tx("dispute", 7, 1, None), &transactions),
        Err(AccountError::AccountIsLocked)
    );
    assert_eq!(
        account.resolve(&tx("resolve", 7, 1, None), &transactions),
        Err(AccountError::AccountIsLocked)
    );
    assert_eq!(
        account.chargeback(&tx("chargeback", 7, 1, None), &transactions),
        Err(AccountError::AccountIsLocked)
    );
    assert_eq!(account, frozen);
}

#[test]
fn balance_out_of_range_is_rejected() {
    let mut account: Account = Account { client: 8, ..Default::default() };
    let huge = Transaction {
        operation: "deposit".to_string(),
        client: 8,
        tax: 1,
        amount: Some(i64::MAX),
    };
    assert!(account.deposit(&huge).is_ok());
    assert_eq!(account.total, i64::MAX);

    let one_more = tx("deposit", 8, 2, Some(0.0001));
    assert_eq!(account.deposit(&one_more), Err(AccountError::BalanceOutOfRange));
    assert_eq!(account.total, i64::MAX);
}

#[test]
fn bookkeeping_identity_holds_after_every_operation() {
    let mut account: Account = Account { client: 9, ..Default::default() };
    let transactions = vec![
        tx("deposit", 9, 1, Some(2.1)),
        tx("withdraw", 9, 2, Some(2.0)),
        tx("dispute", 9, 1, None),
        tx("resolve", 9, 1, None),
        tx("dispute", 9, 2, None),
        tx("chargeback", 9, 2, None),
    ];
    let _ = account.deposit(&transactions[0]);
    assert_eq!(account.total, account.available + account.held);
    let _ = account.withdraw(&transactions[1]);
    assert_eq!(account.total, account.available + account.held);
    let _ = account.dispute(&transactions[2], &transactions);
    assert_eq!(account.total, account.available + account.held);
    let _ = account.resolve(&transactions[3], &transactions);
    assert_eq!(account.total, account.available + account.held);
    let _ = account.dispute(&transactions[4], &transactions);
    assert_eq!(account.total, account.available + account.held);
    let _ = account.chargeback(&transactions[5], &transactions);
    assert_eq!(account.total, account.available + account.held);
}

#[test]
fn error_messages_describe_each_rejection() {
    assert_eq!(
        AccountError::BalanceIsLow.message(),
        "doesn't have enough funds to process the transaction"
    );
    assert_eq!(AccountError::InvalidAmount.message(), "the amount is invalid");
    assert_eq!(
        AccountError::InvalidHeld.message(),
        "the held amount has already been released"
    );
}
