use ewallet::ledger::{Ledger, LedgerError};
use ewallet::models::transaction::{Transaction, TransactionType};
use ewallet::models::user::User;

fn name(s: &str) -> String {
    s.to_string()
}

fn total(l: &Ledger) -> u128 {
    l.users.iter().map(|u| u.balance as u128).sum()
}

fn two_accounts() -> Ledger {
    let mut l = Ledger::new();
    l.create_account(&name("alice")).unwrap();
    l.create_account(&name("bob")).unwrap();
    l
}

#[test]
fn new_account_has_zero_balance() {
    let mut l = Ledger::new();
    assert_eq!(l.create_account(&name("alice")), Ok(()));
    assert_eq!(l.balance(&name("alice")), Some(0));
    assert_eq!(l.balance(&name("nobody")), None);
}

#[test]
fn duplicate_account_is_refused() {
    let mut l = two_accounts();
    assert_eq!(l.create_account(&name("alice")), Err(LedgerError::AlreadyExists));
    assert_eq!(l.users.len(), 2);
}

#[test]
fn deposit_records_both_balances() {
    let mut l = two_accounts();
    assert_eq!(l.deposit(&name("alice"), 100, 7), Ok(()));
    assert_eq!(l.balance(&name("alice")), Some(100));
    assert_eq!(l.transactions.len(), 1);
    let t = &l.transactions[0];
    assert_eq!(t.id, 1);
    assert_eq!(t.username, "alice");
    assert_eq!(t.transaction_type, TransactionType::Deposit);
    assert_eq!(t.amount, 100);
    assert_eq!(t.previous_balance, 0);
    assert_eq!(t.new_balance, 100);
    assert_eq!(t.timestamp, 7);
    assert!(t.recipient.is_none() && t.sender.is_none());
}

#[test]
fn zero_amounts_are_invalid() {
    let mut l = two_accounts();
    assert_eq!(l.deposit(&name("alice"), 0, 1), Err(LedgerError::InvalidAmount));
    assert_eq!(l.withdraw(&name("alice"), 0, 1), Err(LedgerError::InvalidAmount));
    assert_eq!(l.transfer(&name("alice"), &name("bob"), 0, 1), Err(LedgerError::InvalidAmount));
    assert!(l.transactions.is_empty());
}

#[test]
fn unknown_account_is_reported() {
    let mut l = two_accounts();
    assert_eq!(l.deposit(&name("carol"), 5, 1), Err(LedgerError::UserNotFound));
    assert_eq!(l.withdraw(&name("carol"), 5, 1), Err(LedgerError::UserNotFound));
    assert_eq!(l.transfer(&name("carol"), &name("bob"), 5, 1), Err(LedgerError::UserNotFound));
}

#[test]
fn overdraft_is_refused_and_changes_nothing() {
    let mut l = two_accounts();
    l.deposit(&name("alice"), 100, 1).unwrap();
    assert_eq!(l.withdraw(&name("alice"), 150, 2), Err(LedgerError::InsufficientFunds));
    assert_eq!(l.transfer(&name("alice"), &name("bob"), 101, 2), Err(LedgerError::InsufficientFunds));
    assert_eq!(l.balance(&name("alice")), Some(100));
    assert_eq!(l.balance(&name("bob")), Some(0));
    assert_eq!(l.transactions.len(), 1);
    assert_eq!(l.withdraw(&name("alice"), 100, 3), Ok(()));
    assert_eq!(l.balance(&name("alice")), Some(0));
}

#[test]
fn balance_overflow_is_refused() {
    let mut l = two_accounts();
    l.deposit(&name("alice"), u64::MAX, 1).unwrap();
    assert_eq!(l.deposit(&name("alice"), 1, 2), Err(LedgerError::AmountTooLarge));
    l.deposit(&name("bob"), 1, 3).unwrap();
    assert_eq!(l.transfer(&name("bob"), &name("alice"), 1, 4), Err(LedgerError::AmountTooLarge));
    assert_eq!(l.balance(&name("alice")), Some(u64::MAX));
    assert_eq!(l.balance(&name("bob")), Some(1));
}

#[test]
fn money_is_conserved() {
    let mut l = two_accounts();
    l.create_account(&name("carol")).unwrap();
    l.deposit(&name("alice"), 500, 1).unwrap();
    l.deposit(&name("bob"), 70, 2).unwrap();
    assert_eq!(total(&l), 570);
    l.transfer(&name("alice"), &name("bob"), 120, 3).unwrap();
    l.transfer(&name("bob"), &name("carol"), 90, 4).unwrap();
    assert_eq!(total(&l), 570);
    l.withdraw(&name("carol"), 30, 5).unwrap();
    assert_eq!(total(&l), 540);
    let _ = l.withdraw(&name("carol"), 1000, 6);
    assert_eq!(total(&l), 540);
    assert_eq!(l.balance(&name("alice")), Some(380));
    assert_eq!(l.balance(&name("bob")), Some(100));
    assert_eq!(l.balance(&name("carol")), Some(60));
}

#[test]
fn transfer_writes_both_sides() {
    let mut l = two_accounts();
    l.deposit(&name("alice"), 100, 1).unwrap();
    l.deposit(&name("bob"), 5, 1).unwrap();
    assert_eq!(l.transfer(&name("alice"), &name("bob"), 40, 2), Ok(()));
    assert_eq!(l.transactions.len(), 4);
    let out = &l.transactions[2];
    let inc = &l.transactions[3];
    assert_eq!(out.transaction_type, TransactionType::TransferOut);
    assert_eq!(out.username, "alice");
    assert_eq!(out.recipient.as_deref(), Some("bob"));
    assert_eq!((out.previous_balance, out.new_balance), (100, 60));
    assert_eq!(inc.transaction_type, TransactionType::TransferIn);
    assert_eq!(inc.username, "bob");
    assert_eq!(inc.sender.as_deref(), Some("alice"));
    assert_eq!((inc.previous_balance, inc.new_balance), (5, 45));
    assert_eq!(out.amount, inc.amount);
    assert_eq!((out.id, inc.id), (3, 4));
}

#[test]
fn failed_transfer_changes_nothing() {
    let mut l = two_accounts();
    l.deposit(&name("alice"), 100, 1).unwrap();
    assert_eq!(l.transfer(&name("alice"), &name("carol"), 10, 2), Err(LedgerError::RecipientNotFound));
    assert_eq!(l.balance(&name("alice")), Some(100));
    assert_eq!(l.transactions.len(), 1);
}

#[test]
fn history_shows_each_side_once() {
    let mut l = two_accounts();
    l.deposit(&name("alice"), 100, 1).unwrap();
    l.transfer(&name("alice"), &name("bob"), 40, 2).unwrap();
    let a = l.history(&name("alice"));
    assert_eq!(a.len(), 2);
    assert_eq!(a[0].transaction_type, TransactionType::TransferOut);
    assert_eq!(a[1].transaction_type, TransactionType::Deposit);
    assert!(a.iter().all(|t| t.transaction_type != TransactionType::TransferIn));
    let b = l.history(&name("bob"));
    assert_eq!(b.len(), 1);
    assert_eq!(b[0].transaction_type, TransactionType::TransferIn);
    assert_eq!(b[0].sender.as_deref(), Some("alice"));
}

#[test]
fn self_transfer_keeps_balance_and_shows_once() {
    let mut l = two_accounts();
    l.deposit(&name("alice"), 100, 1).unwrap();
    assert_eq!(l.transfer(&name("alice"), &name("alice"), 30, 2), Ok(()));
    assert_eq!(l.balance(&name("alice")), Some(100));
    assert_eq!(l.transactions.len(), 3);
    assert_eq!((l.transactions[2].previous_balance, l.transactions[2].new_balance), (70, 100));
    let a = l.history(&name("alice"));
    assert_eq!(a.len(), 2);
    assert_eq!(a[0].transaction_type, TransactionType::TransferOut);
}

#[test]
fn timestamps_never_go_back() {
    let mut l = two_accounts();
    l.deposit(&name("alice"), 1, 50).unwrap();
    l.deposit(&name("alice"), 1, 20).unwrap();
    assert_eq!(l.transactions[1].timestamp, 50);
}

#[test]
fn user_table_operations() {
    let mut users: Vec<User> = Vec::new();
    assert!(User::create(&mut users, &name("dora")));
    assert!(!User::create(&mut users, &name("dora")));
    User::update_balance(&mut users, &name("dora"), 12);
    User::update_balance(&mut users, &name("eve"), 99);
    assert_eq!(users.len(), 1);
    let u = User::get(&users, &name("dora")).unwrap();
    assert_eq!((u.username.as_str(), u.balance), ("dora", 12));
    assert!(User::get(&users, &name("eve")).is_none());
    assert_eq!(User::find(&users, &name("dora")), Some(0));
    let v = User::new(name("x"), 3);
    assert_eq!(v.balance, 3);
}

#[test]
fn log_operations() {
    let mut log: Vec<Transaction> = Vec::new();
    let t = Transaction::new(name("a"), TransactionType::Withdraw, 3, None, None, 10, 7, 100);
    assert_eq!(t.id, 0);
    Transaction::create(&mut log, &t);
    Transaction::create(&mut log, &t);
    assert_eq!((log[0].id, log[1].id), (1, 2));
    assert_eq!(Transaction::get_user_transactions(&log, &name("a")).len(), 2);
    assert!(Transaction::get_user_transactions(&log, &name("b")).is_empty());
}

#[test]
fn restore_accepts_consistent_tables() {
    let mut l = two_accounts();
    l.deposit(&name("alice"), 100, 1).unwrap();
    l.transfer(&name("alice"), &name("bob"), 40, 2).unwrap();
    let users: Vec<User> = l.users.iter().map(|u| User::new(u.username.clone(), u.balance)).collect();
    let log: Vec<Transaction> = l.transactions.iter().map(|t| t.copy()).collect();
    let r = Ledger::restore(users, log).unwrap();
    assert_eq!(r.balance(&name("bob")), Some(40));
}

#[test]
fn restore_rejects_inconsistent_tables() {
    let dup = vec![User::new(name("a"), 0), User::new(name("a"), 0)];
    assert!(Ledger::restore(dup, Vec::new()).is_none());
    let rich = vec![User::new(name("a"), 5)];
    assert!(Ledger::restore(rich, Vec::new()).is_none());
    let mut t = Transaction::new(name("a"), TransactionType::Deposit, 5, None, None, 0, 5, 1);
    t.id = 7;
    assert!(Ledger::restore(vec![User::new(name("a"), 5)], vec![t]).is_none());
    let swapped = vec![User::new(name("a"), 0), User::new(name("b"), 5)];
    let dep = Transaction::new(name("a"), TransactionType::Deposit, 5, None, None, 0, 5, 1);
    let mut dep1 = dep.copy();
    dep1.id = 1;
    assert!(Ledger::restore(swapped, vec![dep1]).is_none());
    let mut orphan = Transaction::new(name("zed"), TransactionType::TransferOut, 0, None, None, 0, 0, 1);
    orphan.id = 1;
    assert!(Ledger::restore(vec![User::new(name("a"), 0)], vec![orphan]).is_none());
    let mut ok = dep.copy();
    ok.id = 1;
    assert!(Ledger::restore(vec![User::new(name("a"), 5), User::new(name("b"), 0)], vec![ok]).is_some());
    let mut bad = Transaction::new(name("a"), TransactionType::Deposit, 5, None, None, 1, 6, 1);
    bad.id = 1;
    assert!(Ledger::restore(vec![User::new(name("a"), 5)], vec![bad]).is_none());
}

#[test]
fn history_holds_only_own_records() {
    let mut log: Vec<Transaction> = Vec::new();
    let foreign = Transaction::new(name("x"), TransactionType::Deposit, 3, None, Some(name("a")), 0, 3, 1);
    Transaction::create(&mut log, &foreign);
    let own = Transaction::new(name("a"), TransactionType::Deposit, 2, None, None, 0, 2, 2);
    Transaction::create(&mut log, &own);
    let h = Transaction::get_user_transactions(&log, &name("a"));
    assert_eq!(h.len(), 1);
    assert_eq!(h[0].username, "a");
    assert_eq!(h[0].amount, 2);
}

#[test]
fn history_is_newest_first() {
    let mut l = two_accounts();
    l.deposit(&name("alice"), 1, 10).unwrap();
    l.deposit(&name("alice"), 2, 30).unwrap();
    l.withdraw(&name("alice"), 1, 20).unwrap();
    let h = l.history(&name("alice"));
    let stamps: Vec<i64> = h.iter().map(|t| t.timestamp).collect();
    assert_eq!(stamps, vec![30, 30, 10]);
    let ids: Vec<u64> = h.iter().map(|t| t.id).collect();
    assert_eq!(ids, vec![3, 2, 1]);
}
