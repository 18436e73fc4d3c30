use ewallet::amount::parse_amount;
use ewallet::app::{App, AppState};
use ewallet::controllers::app_controller::{retain_recent, AppController, Key};
use ewallet::ledger::{Ledger, LedgerError};
use ewallet::models::transaction::TransactionType;

fn s(x: &str) -> String {
    x.to_string()
}

fn last_message(app: &AppController) -> String {
    app.messages.last().unwrap().0.clone()
}

fn type_text(app: &mut AppController, text: &str) {
    for c in text.chars() {
        assert!(app.handle_input(Key::Char(c)));
    }
}

#[test]
fn alice_and_bob_scenario() {
    let mut app = AppController::new(Ledger::new());
    assert_eq!(app.create_account(s("alice")), Ok(()));
    assert_eq!(app.get_balance(), 0);
    assert_eq!(app.deposit(100), Ok(()));
    assert_eq!(app.get_balance(), 100);
    let h = app.get_transactions();
    assert_eq!(h.len(), 1);
    assert_eq!(h[0].transaction_type, TransactionType::Deposit);
    assert_eq!((h[0].previous_balance, h[0].new_balance), (0, 100));
    assert_eq!(app.withdraw(150), Err(LedgerError::InsufficientFunds));
    assert_eq!(app.get_balance(), 100);
    app.logout();
    assert_eq!(app.create_account(s("bob")), Ok(()));
    app.logout();
    assert_eq!(app.login(s("alice")), Ok(()));
    assert_eq!(app.transfer(s("bob"), 40), Ok(()));
    assert_eq!(app.get_balance(), 60);
    let h = app.get_transactions();
    assert_eq!(h[0].transaction_type, TransactionType::TransferOut);
    assert_eq!(h[0].amount, 40);
    assert_eq!(h[0].recipient.as_deref(), Some("bob"));
    assert_eq!(app.transfer(s("carol"), 10), Err(LedgerError::RecipientNotFound));
    assert_eq!(app.get_balance(), 60);
    app.logout();
    app.login(s("bob")).unwrap();
    assert_eq!(app.get_balance(), 40);
    let h = app.get_transactions();
    assert_eq!(h.len(), 1);
    assert_eq!(h[0].transaction_type, TransactionType::TransferIn);
    assert_eq!(h[0].amount, 40);
    assert_eq!(h[0].sender.as_deref(), Some("alice"));
}

#[test]
fn signed_out_session_refuses_money_operations() {
    let mut app = AppController::new(Ledger::new());
    assert_eq!(app.deposit(5), Err(LedgerError::NotAuthenticated));
    assert_eq!(app.withdraw(5), Err(LedgerError::NotAuthenticated));
    assert_eq!(app.transfer(s("x"), 5), Err(LedgerError::NotAuthenticated));
    assert!(!app.can_withdraw(0));
    assert_eq!(app.get_balance(), 0);
    assert!(app.get_transactions().is_empty());
    assert_eq!(app.get_current_user(), None);
    assert_eq!(last_message(&app), "Please log in first.");
}

#[test]
fn login_requires_existing_account() {
    let mut app = App::new(Ledger::new());
    assert_eq!(app.login(s("ghost")), Err(LedgerError::UserNotFound));
    assert_eq!(last_message(&app), "User does not exist. Please try again.");
    app.create_account(s("ghost")).unwrap();
    assert_eq!(app.get_current_user(), Some("ghost"));
    assert_eq!(app.current_state, AppState::LoggedIn);
    assert_eq!(app.create_account(s("ghost")), Err(LedgerError::AlreadyExists));
}

#[test]
fn logout_twice_is_logout_once() {
    let mut app = AppController::new(Ledger::new());
    app.create_account(s("alice")).unwrap();
    app.deposit(10).unwrap();
    app.logout();
    let n = app.messages.len();
    app.logout();
    assert_eq!(app.get_current_user(), None);
    assert_eq!(app.current_state, AppState::MainMenu);
    assert_eq!(app.ledger().users.len(), 1);
    assert_eq!(app.ledger().transactions.len(), 1);
    assert_eq!(app.messages.len(), n + 1);
    assert_eq!(last_message(&app), "Logged out successfully.");
}

#[test]
fn messages_spell_amounts() {
    let mut app = AppController::new(Ledger::new());
    app.create_account(s("alice")).unwrap();
    app.logout();
    app.create_account(s("bob")).unwrap();
    app.logout();
    app.login(s("alice")).unwrap();
    app.deposit(1205).unwrap();
    assert_eq!(last_message(&app), "Deposited $12.05");
    app.withdraw(5).unwrap();
    assert_eq!(last_message(&app), "Withdrawn $0.05");
    app.transfer(s("bob"), 100000).unwrap_err();
    assert_eq!(last_message(&app), "Insufficient funds.");
    app.transfer(s("bob"), 1000).unwrap();
    assert_eq!(last_message(&app), "Transferred $10.00 to bob");
    assert!(app.can_withdraw(200));
    assert!(!app.can_withdraw(201));
}

#[test]
fn messages_carry_clock_time() {
    let mut app = AppController::new(Ledger::new());
    app.add_message(s("hello"));
    assert_eq!(app.messages.len(), 1);
    assert!(app.messages[0].1 >= 0 && app.messages[0].1 < 60_000);
    app.clear_expired_messages();
    assert_eq!(app.messages.len(), 1);
}

#[test]
fn expired_messages_are_dropped() {
    let mut m = vec![(s("old"), 1000), (s("edge"), 5000), (s("new"), 9000), (s("future"), 20000)];
    retain_recent(&mut m, 10000, 5000);
    let texts: Vec<&str> = m.iter().map(|x| x.0.as_str()).collect();
    assert_eq!(texts, vec!["new", "future"]);
}

#[test]
fn amounts_are_read_in_cents() {
    assert_eq!(parse_amount("12"), Some(1200));
    assert_eq!(parse_amount("12.5"), Some(1250));
    assert_eq!(parse_amount("12.05"), Some(1205));
    assert_eq!(parse_amount("0"), Some(0));
    assert_eq!(parse_amount(""), None);
    assert_eq!(parse_amount("1.234"), None);
    assert_eq!(parse_amount(".5"), None);
    assert_eq!(parse_amount("5."), None);
    assert_eq!(parse_amount("-5"), None);
    assert_eq!(parse_amount("abc"), None);
    assert_eq!(parse_amount("1.2x"), None);
    assert_eq!(parse_amount("184467440737095516.15"), Some(u64::MAX));
    assert_eq!(parse_amount("184467440737095516.16"), None);
    assert_eq!(parse_amount("99999999999999999999"), None);
}

#[test]
fn keys_drive_the_screens() {
    let mut app = AppController::new(Ledger::new());
    assert!(app.handle_input(Key::Char('2')));
    assert_eq!(app.current_state, AppState::CreateAccount);
    type_text(&mut app, "alicx");
    app.handle_input(Key::Backspace);
    type_text(&mut app, "e");
    assert_eq!(app.input, "alice");
    app.handle_input(Key::Enter);
    assert_eq!(app.current_state, AppState::LoggedIn);
    assert_eq!(app.get_current_user(), Some("alice"));
    assert_eq!(app.input, "");
    app.handle_input(Key::Char('1'));
    assert_eq!(app.current_state, AppState::Deposit);
    type_text(&mut app, "abc");
    app.handle_input(Key::Enter);
    assert_eq!(last_message(&app), "Invalid amount. Please enter a valid number.");
    assert_eq!(app.current_state, AppState::Deposit);
    app.handle_input(Key::Esc);
    assert_eq!(app.current_state, AppState::LoggedIn);
    app.handle_input(Key::Char('1'));
    type_text(&mut app, " 25.50 ");
    app.handle_input(Key::Enter);
    assert_eq!(app.get_balance(), 2550);
    assert_eq!(app.current_state, AppState::LoggedIn);
    app.handle_input(Key::Char('2'));
    type_text(&mut app, "100");
    app.handle_input(Key::Enter);
    assert_eq!(last_message(&app), "Insufficient funds.");
    assert_eq!(app.get_balance(), 2550);
    app.handle_input(Key::Char('4'));
    assert_eq!(app.current_state, AppState::ViewTransactions);
    app.handle_input(Key::Enter);
    app.handle_input(Key::Char('5'));
    assert_eq!(app.current_state, AppState::MainMenu);
    assert_eq!(app.get_current_user(), None);
    assert!(!app.handle_input(Key::Char('q')));
}

#[test]
fn transfer_screen_takes_recipient_then_amount() {
    let mut app = AppController::new(Ledger::new());
    app.create_account(s("bob")).unwrap();
    app.logout();
    app.create_account(s("alice")).unwrap();
    app.deposit(1000).unwrap();
    app.handle_input(Key::Char('3'));
    type_text(&mut app, "bob");
    app.handle_input(Key::Enter);
    assert_eq!(app.transfer_recipient.as_deref(), Some("bob"));
    assert_eq!(app.input, "");
    type_text(&mut app, "2.5");
    app.handle_input(Key::Enter);
    assert_eq!(app.current_state, AppState::LoggedIn);
    assert_eq!(app.transfer_recipient, None);
    assert_eq!(app.get_balance(), 750);
    app.handle_input(Key::Char('3'));
    type_text(&mut app, "bob");
    app.handle_input(Key::Enter);
    app.handle_input(Key::Esc);
    assert_eq!(app.transfer_recipient, None);
    assert_eq!(app.current_state, AppState::LoggedIn);
}
