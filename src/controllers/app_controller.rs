use vstd::prelude::*;
use crate::amount::{amount_value, money, parse_amount, push_money};
pub use crate::app::AppState;
use crate::clock::{local_now_millis, millis_since, monotonic_now};
use crate::ledger::{Ledger, LedgerError};
use crate::models::transaction::{history, history_shape, Transaction};
use crate::models::user::{balance_of, has_user, lemma_with_balance_names, User};
use crate::text::{pop_char, push_char, trim_text, trimmed_of};

verus! {

/// How long a status message stays, in milliseconds.
pub const MESSAGE_TIMEOUT_MS: i64 = 5000;

/// `post` is `pre` with one more message, whose text is `text`.
pub open spec fn noted(pre: Seq<(String, i64)>, post: Seq<(String, i64)>, text: Seq<char>) -> bool {
    post.len() == pre.len() + 1 && post.drop_last() == pre && post.last().0@ == text
}

/// A message stamped `m.1` is younger than `timeout` at time `now`.
pub open spec fn recent(now: i64, timeout: i64, m: (String, i64)) -> bool {
    (now as int) - (m.1 as int) < timeout as int
}

/// The messages of `s` that are younger than `timeout` at time `now`, in their order.
pub open spec fn recent_messages(s: Seq<(String, i64)>, now: i64, timeout: i64) -> Seq<(String, i64)> {
    s.filter(|m: (String, i64)| recent(now, timeout, m))
}

/// Drops the messages that are `timeout` or more older than `now`.
pub fn retain_recent(messages: &mut Vec<(String, i64)>, now: i64, timeout: i64)
    ensures
        final(messages)@ == recent_messages(old(messages)@, now, timeout),
{
    let mut kept: Vec<(String, i64)> = Vec::new();
    let mut i: usize = 0;
    while i < messages.len()
        invariant
            *messages == *old(messages),
            i <= messages.len(),
            kept@ == recent_messages(messages@.take(i as int), now, timeout),
        decreases messages.len() - i,
    {
        proof {
            assert(messages@.take(i + 1).drop_last() =~= messages@.take(i as int));
            assert(messages@.take(i + 1).last() == messages@[i as int]);
            reveal(Seq::filter);
            let f = |m: (String, i64)| recent(now, timeout, m);
            assert(recent_messages(messages@.take(i + 1), now, timeout) == messages@.take(i + 1).filter(f));
            assert(messages@.take(i + 1).filter(f) == if f(messages@[i as int]) {
                messages@.take(i as int).filter(f).push(messages@[i as int])
            } else {
                messages@.take(i as int).filter(f)
            });
        }
        let at = messages[i].1;
        if (now as i128) - (at as i128) < timeout as i128 {
            let text = messages[i].0.clone();
            kept.push((text, at));
            proof {
                assert(recent(now, timeout, messages@[i as int]));
                assert(kept@.last() == messages@[i as int]);
                assert(kept@ =~= recent_messages(messages@.take(i as int), now, timeout).push(
                    messages@[i as int],
                ));
            }
        } else {
            assert(!recent(now, timeout, messages@[i as int]));
        }
        i = i + 1;
    }
    proof {
        assert(messages@.take(messages@.len() as int) =~= messages@);
    }
    *messages = kept;
}

/// A `String` holding the text `s`.
fn text_of(s: &str) -> (r: String)
    ensures
        r@ == s@,
{
    let mut r = String::new();
    r.append(s);
    proof {
        assert(r@ =~= s@);
    }
    r
}

/// A key press as the session reads it.
#[derive(PartialEq, Eq, Structural, Clone, Copy, Debug)]
pub enum Key {
    Char(char),
    Enter,
    Backspace,
    Esc,
    /// Any key the session does not use.
    Other,
}

/// The screens on which the user types text.
pub open spec fn takes_text(s: AppState) -> bool {
    s == AppState::Login || s == AppState::CreateAccount || s == AppState::Deposit || s
        == AppState::Withdraw || s == AppState::Transfer
}

/// The screen that escape leads back to from a screen that takes text.
pub open spec fn back_from(s: AppState) -> AppState {
    if s == AppState::Login || s == AppState::CreateAccount {
        AppState::MainMenu
    } else {
        AppState::LoggedIn
    }
}

/// The typed text after a character or a backspace.
pub open spec fn edited(input: Seq<char>, key: Key) -> Seq<char> {
    match key {
        Key::Char(c) => input.push(c),
        Key::Backspace => if input.len() > 0 {
            input.drop_last()
        } else {
            input
        },
        _ => input,
    }
}

/// The screen that a key chooses from the main menu.
pub open spec fn main_menu_choice(key: Key) -> AppState {
    if key == Key::Char('1') {
        AppState::Login
    } else if key == Key::Char('2') {
        AppState::CreateAccount
    } else {
        AppState::MainMenu
    }
}

/// The screen that a key other than the logout key chooses from the account menu.
pub open spec fn account_menu_choice(key: Key) -> AppState {
    if key == Key::Char('1') {
        AppState::Deposit
    } else if key == Key::Char('2') {
        AppState::Withdraw
    } else if key == Key::Char('3') {
        AppState::Transfer
    } else if key == Key::Char('4') {
        AppState::ViewTransactions
    } else {
        AppState::LoggedIn
    }
}

/// The ledger `post` is what a deposit of `amount` by `user` makes of `pre`: unchanged when
/// nobody is signed in or the deposit is refused.
pub open spec fn after_deposit(pre: Ledger, post: Ledger, user: Option<Seq<char>>, amount: u64) -> bool {
    match user {
        Some(n) => if pre.deposit_result(n, amount) is Ok {
            exists|now: i64| #[trigger] Ledger::deposited(pre, post, n, amount, now)
        } else {
            post.same(pre)
        },
        None => post.same(pre),
    }
}

/// As `after_deposit`, for a withdrawal.
pub open spec fn after_withdraw(pre: Ledger, post: Ledger, user: Option<Seq<char>>, amount: u64) -> bool {
    match user {
        Some(n) => if pre.withdraw_result(n, amount) is Ok {
            exists|now: i64| #[trigger] Ledger::withdrew(pre, post, n, amount, now)
        } else {
            post.same(pre)
        },
        None => post.same(pre),
    }
}

/// As `after_deposit`, for a transfer to `to`.
pub open spec fn after_transfer(
    pre: Ledger,
    post: Ledger,
    user: Option<Seq<char>>,
    to: Seq<char>,
    amount: u64,
) -> bool {
    match user {
        Some(n) => if pre.transfer_result(n, to, amount) is Ok {
            exists|now: i64| #[trigger] Ledger::transferred(pre, post, n, to, amount, now)
        } else {
            post.same(pre)
        },
        None => post.same(pre),
    }
}

/// The notice that a deposit of `amount` by `user` on the ledger `l` adds.
pub open spec fn deposit_notice(l: Ledger, user: Option<Seq<char>>, amount: u64) -> Seq<char> {
    match user {
        None => LedgerError::NotAuthenticated.describe(),
        Some(n) => match l.deposit_result(n, amount) {
            Ok(_) => "Deposited "@ + money(amount as nat),
            Err(e) => e.describe(),
        },
    }
}

/// The notice that a withdrawal of `amount` by `user` on the ledger `l` adds.
pub open spec fn withdraw_notice(l: Ledger, user: Option<Seq<char>>, amount: u64) -> Seq<char> {
    match user {
        None => LedgerError::NotAuthenticated.describe(),
        Some(n) => match l.withdraw_result(n, amount) {
            Ok(_) => "Withdrawn "@ + money(amount as nat),
            Err(e) => e.describe(),
        },
    }
}

/// The notice that a transfer of `amount` by `user` to `to` on the ledger `l` adds.
pub open spec fn transfer_notice(l: Ledger, user: Option<Seq<char>>, to: Seq<char>, amount: u64) -> Seq<char> {
    match user {
        None => LedgerError::NotAuthenticated.describe(),
        Some(n) => match l.transfer_result(n, to, amount) {
            Ok(_) => "Transferred "@ + money(amount as nat) + " to "@ + to,
            Err(e) => e.describe(),
        },
    }
}

/// The notice that signing in (`signing_in`) or opening an account as `name` adds.
pub open spec fn credentials_notice(l: Ledger, signing_in: bool, name: Seq<char>) -> Seq<char> {
    let known = has_user(l.users@, name);
    if signing_in {
        if known {
            "Login successful."@
        } else {
            LedgerError::UserNotFound.describe()
        }
    } else {
        if known {
            LedgerError::AlreadyExists.describe()
        } else {
            "Account created successfully."@
        }
    }
}

/// The notice for text that is not an amount.
pub open spec fn not_a_number() -> Seq<char> {
    "Invalid amount. Please enter a valid number."@
}

/// The interactive session: the screen shown, the text being typed, status messages stamped
/// with the time they were added (milliseconds of the monotonic clock since the session
/// started), and the ledger with the account signed in.
pub struct AppController {
    pub current_state: AppState,
    pub input: String,
    pub transfer_recipient: Option<String>,
    pub messages: Vec<(String, i64)>,
    pub message_timeout: i64,
    pub ledger: Ledger,
    pub current_user: Option<String>,
    pub started: std::time::Instant,
}

impl AppController {
    /// The name of the account signed in, if any.
    pub open spec fn user(&self) -> Option<Seq<char>> {
        match self.current_user {
            Some(u) => Some(u@),
            None => None,
        }
    }

    /// How long a message stays, in milliseconds.
    pub open spec fn timeout(&self) -> i64 {
        self.message_timeout
    }

    /// The ledger is well formed and the account signed in exists.
    pub open spec fn wf(&self) -> bool {
        &&& self.ledger.wf()
        &&& self.current_user matches Some(u) ==> has_user(self.ledger.users@, u@)
        &&& self.message_timeout == MESSAGE_TIMEOUT_MS
    }

    /// The same ledger, account signed in and message timeout as `other`.
    pub open spec fn same_session(&self, other: AppController) -> bool {
        &&& self.ledger.same(other.ledger)
        &&& self.user() == other.user()
        &&& self.timeout() == other.timeout()
    }

    /// The same screen, typed text and pending transfer recipient as `other`.
    pub open spec fn same_screen(&self, other: AppController) -> bool {
        &&& self.current_state == other.current_state
        &&& self.input == other.input
        &&& self.transfer_recipient == other.transfer_recipient
    }

    /// `post` is `pre` after a logout: nobody is signed in, the main menu shows, and a notice
    /// says so; the ledger and the typed text are untouched.
    pub open spec fn logged_out(pre: AppController, post: AppController) -> bool {
        &&& post.user() is None
        &&& post.current_state == AppState::MainMenu
        &&& post.ledger.same(pre.ledger)
        &&& post.timeout() == pre.timeout()
        &&& post.input == pre.input
        &&& post.transfer_recipient == pre.transfer_recipient
        &&& noted(pre.messages@, post.messages@, "Logged out successfully."@)
    }

    /// A session at the main menu over `ledger`, with nobody signed in.
    pub fn new(ledger: Ledger) -> (r: AppController)
        requires
            ledger.wf(),
        ensures
            r.wf(),
            r.ledger == ledger,
            r.user() is None,
            r.timeout() == MESSAGE_TIMEOUT_MS,
            r.current_state == AppState::MainMenu,
            r.input@.len() == 0,
            r.transfer_recipient is None,
            r.messages@.len() == 0,
    {
        AppController {
            current_state: AppState::MainMenu,
            input: String::new(),
            transfer_recipient: None,
            messages: Vec::new(),
            message_timeout: MESSAGE_TIMEOUT_MS,
            ledger,
            current_user: None,
            started: monotonic_now(),
        }
    }

    /// The ledger behind the session, for storing it.
    pub fn ledger(&self) -> (r: &Ledger)
        ensures
            *r == self.ledger,
    {
        &self.ledger
    }

    /// Adds a status message stamped with the current time.
    pub fn add_message(&mut self, message: String)
        requires
            old(self).wf(),
        ensures
            final(self).wf(),
            final(self).same_session(*old(self)),
            final(self).same_screen(*old(self)),
            noted(old(self).messages@, final(self).messages@, message@),
    {
        let now = millis_since(&self.started);
        self.messages.push((message, now));
        proof {
            assert(self.messages@.drop_last() =~= old(self).messages@);
        }
    }

    /// Drops the messages that have been shown for the timeout or longer.
    pub fn clear_expired_messages(&mut self)
        requires
            old(self).wf(),
        ensures
            final(self).wf(),
            final(self).same_session(*old(self)),
            final(self).same_screen(*old(self)),
            exists|now: i64|
                final(self).messages@ == #[trigger] recent_messages(
                    old(self).messages@,
                    now,
                    old(self).timeout(),
                ),
    {
        let now = millis_since(&self.started);
        retain_recent(&mut self.messages, now, self.message_timeout);
    }

    /// Signs in to the account `username`, if it exists.
    pub fn login(&mut self, username: String) -> (r: Result<(), LedgerError>)
        requires
            old(self).wf(),
        ensures
            final(self).wf(),
            final(self).ledger.same(old(self).ledger),
            final(self).timeout() == old(self).timeout(),
            final(self).input == old(self).input,
            final(self).transfer_recipient == old(self).transfer_recipient,
            r is Ok <==> has_user(old(self).ledger.users@, username@),
            r is Ok ==> final(self).user() == Some(username@) && final(self).current_state
                == AppState::LoggedIn && noted(
                old(self).messages@,
                final(self).messages@,
                "Login successful."@,
            ),
            r is Err ==> r == Err::<(), LedgerError>(LedgerError::UserNotFound) && final(self).user() == old(self).user() && final(self).current_state == old(self).current_state
                && noted(old(self).messages@, final(self).messages@, LedgerError::UserNotFound.describe()),
    {
        if self.ledger.has_account(&username) {
            self.current_user = Some(username);
            self.current_state = AppState::LoggedIn;
            self.add_message(text_of("Login successful."));
            Ok(())
        } else {
            let e = LedgerError::UserNotFound;
            self.add_message(text_of(e.message()));
            Err(e)
        }
    }

    /// Opens the account `username` and signs in to it, unless the name is taken.
    pub fn create_account(&mut self, username: String) -> (r: Result<(), LedgerError>)
        requires
            old(self).wf(),
        ensures
            final(self).wf(),
            final(self).timeout() == old(self).timeout(),
            final(self).input == old(self).input,
            final(self).transfer_recipient == old(self).transfer_recipient,
            final(self).ledger.transactions@ == old(self).ledger.transactions@,
            r is Ok <==> !has_user(old(self).ledger.users@, username@),
            r is Ok ==> final(self).ledger.users@ == old(self).ledger.users@.push(
                User { username, balance: 0 },
            ) && Ledger::opened(old(self).ledger.users@, final(self).ledger.users@, username@)
                && final(self).user() == Some(username@) && final(self).current_state
                == AppState::LoggedIn && noted(
                old(self).messages@,
                final(self).messages@,
                "Account created successfully."@,
            ),
            r is Err ==> r == Err::<(), LedgerError>(LedgerError::AlreadyExists) && final(self).same_session(*old(self)) && final(self).current_state == old(self).current_state
                && noted(old(self).messages@, final(self).messages@, LedgerError::AlreadyExists.describe()),
    {
        match self.ledger.create_account(&username) {
            Ok(()) => {
                proof {
                    let s = self.ledger.users@;
                    assert(has_user(s, username@)) by {
                        assert(s[s.len() - 1].username@ == username@);
                    }
                    if let Some(u) = old(self).current_user {
                        let i = choose|i: int|
                            0 <= i < old(self).ledger.users@.len()
                                && #[trigger] old(self).ledger.users@[i].username@ == u@;
                        assert(s[i].username@ == u@);
                    }
                }
                self.current_user = Some(username);
                self.current_state = AppState::LoggedIn;
                self.add_message(text_of("Account created successfully."));
                Ok(())
            },
            Err(e) => {
                self.add_message(text_of(e.message()));
                Err(e)
            },
        }
    }

    /// Deposits `amount` cents into the account signed in.
    pub fn deposit(&mut self, amount: u64) -> (r: Result<(), LedgerError>)
        requires
            old(self).wf(),
        ensures
            final(self).wf(),
            final(self).same_screen(*old(self)),
            final(self).user() == old(self).user(),
            final(self).timeout() == old(self).timeout(),
            old(self).user() is None ==> r == Err::<(), LedgerError>(LedgerError::NotAuthenticated),
            old(self).user() matches Some(name) ==> r == old(self).ledger.deposit_result(name, amount),
            r is Err ==> final(self).ledger.same(old(self).ledger),
            r is Ok ==> exists|now: i64|
                #[trigger] Ledger::deposited(old(self).ledger, final(self).ledger, old(self).user()->0, amount, now),
            r is Ok ==> noted(old(self).messages@, final(self).messages@, "Deposited "@ + money(amount as nat)),
            r matches Err(e) ==> noted(old(self).messages@, final(self).messages@, e.describe()),
    {
        let name = match &self.current_user {
            Some(u) => u.clone(),
            None => {
                let e = LedgerError::NotAuthenticated;
                self.add_message(text_of(e.message()));
                return Err(e);
            },
        };
        let now = local_now_millis();
        match self.ledger.deposit(&name, amount, now) {
            Ok(()) => {
                proof {
                    let b = (balance_of(old(self).ledger.users@, name@) + amount) as u64;
                    lemma_with_balance_names(old(self).ledger.users@, name@, b, name@);
                }
                let mut m = text_of("Deposited ");
                push_money(&mut m, amount);
                let ghost mid_ledger = self.ledger;
                self.add_message(m);
                proof {
                    assert(self.ledger.users@ == mid_ledger.users@);
                    assert(self.ledger.transactions@ == mid_ledger.transactions@);
                    assert(Ledger::deposited(old(self).ledger, mid_ledger, name@, amount, now));
                    assert(Ledger::deposited(old(self).ledger, self.ledger, name@, amount, now));
                }
                Ok(())
            },
            Err(e) => {
                self.add_message(text_of(e.message()));
                Err(e)
            },
        }
    }

    /// Withdraws `amount` cents from the account signed in, if it holds that much.
    pub fn withdraw(&mut self, amount: u64) -> (r: Result<(), LedgerError>)
        requires
            old(self).wf(),
        ensures
            final(self).wf(),
            final(self).same_screen(*old(self)),
            final(self).user() == old(self).user(),
            final(self).timeout() == old(self).timeout(),
            old(self).user() is None ==> r == Err::<(), LedgerError>(LedgerError::NotAuthenticated),
            old(self).user() matches Some(name) ==> r == old(self).ledger.withdraw_result(name, amount),
            r is Err ==> final(self).ledger.same(old(self).ledger),
            r is Ok ==> exists|now: i64|
                #[trigger] Ledger::withdrew(old(self).ledger, final(self).ledger, old(self).user()->0, amount, now),
            r is Ok ==> noted(old(self).messages@, final(self).messages@, "Withdrawn "@ + money(amount as nat)),
            r matches Err(e) ==> noted(old(self).messages@, final(self).messages@, e.describe()),
    {
        let name = match &self.current_user {
            Some(u) => u.clone(),
            None => {
                let e = LedgerError::NotAuthenticated;
                self.add_message(text_of(e.message()));
                return Err(e);
            },
        };
        let now = local_now_millis();
        match self.ledger.withdraw(&name, amount, now) {
            Ok(()) => {
                proof {
                    let b = (balance_of(old(self).ledger.users@, name@) - amount) as u64;
                    lemma_with_balance_names(old(self).ledger.users@, name@, b, name@);
                }
                let mut m = text_of("Withdrawn ");
                push_money(&mut m, amount);
                let ghost mid_ledger = self.ledger;
                self.add_message(m);
                proof {
                    assert(self.ledger.users@ == mid_ledger.users@);
                    assert(self.ledger.transactions@ == mid_ledger.transactions@);
                    assert(Ledger::withdrew(old(self).ledger, mid_ledger, name@, amount, now));
                    assert(Ledger::withdrew(old(self).ledger, self.ledger, name@, amount, now));
                }
                Ok(())
            },
            Err(e) => {
                self.add_message(text_of(e.message()));
                Err(e)
            },
        }
    }

    /// Whether someone is signed in and their account holds at least `amount` cents.
    pub fn can_withdraw(&self, amount: u64) -> (r: bool)
        requires
            self.wf(),
        ensures
            r == (self.user() matches Some(name) && amount <= balance_of(self.ledger.users@, name)),
    {
        match &self.current_user {
            Some(u) => match self.ledger.balance(u) {
                Some(b) => amount <= b,
                None => false,
            },
            None => false,
        }
    }

    /// Transfers `amount` cents from the account signed in to the account `recipient`.
    pub fn transfer(&mut self, recipient: String, amount: u64) -> (r: Result<(), LedgerError>)
        requires
            old(self).wf(),
        ensures
            final(self).wf(),
            final(self).same_screen(*old(self)),
            final(self).user() == old(self).user(),
            final(self).timeout() == old(self).timeout(),
            old(self).user() is None ==> r == Err::<(), LedgerError>(LedgerError::NotAuthenticated),
            old(self).user() matches Some(name) ==> r == old(self).ledger.transfer_result(
                name,
                recipient@,
                amount,
            ),
            r is Err ==> final(self).ledger.same(old(self).ledger),
            r is Ok ==> exists|now: i64|
                #[trigger] Ledger::transferred(
                    old(self).ledger,
                    final(self).ledger,
                    old(self).user()->0,
                    recipient@,
                    amount,
                    now,
                ),
            r is Ok ==> noted(
                old(self).messages@,
                final(self).messages@,
                "Transferred "@ + money(amount as nat) + " to "@ + recipient@,
            ),
            r matches Err(e) ==> noted(old(self).messages@, final(self).messages@, e.describe()),
    {
        let name = match &self.current_user {
            Some(u) => u.clone(),
            None => {
                let e = LedgerError::NotAuthenticated;
                self.add_message(text_of(e.message()));
                return Err(e);
            },
        };
        let now = local_now_millis();
        match self.ledger.transfer(&name, &recipient, amount, now) {
            Ok(()) => {
                proof {
                    let users = old(self).ledger.users@;
                    let b = (balance_of(users, name@) - amount) as u64;
                    let mid = crate::models::user::with_balance(users, name@, b);
                    lemma_with_balance_names(users, name@, b, name@);
                    lemma_with_balance_names(
                        mid,
                        recipient@,
                        (balance_of(mid, recipient@) + amount) as u64,
                        name@,
                    );
                }
                let mut m = text_of("Transferred ");
                push_money(&mut m, amount);
                m.append(" to ");
                m.append(recipient.as_str());
                let ghost mid_ledger = self.ledger;
                self.add_message(m);
                proof {
                    assert(Ledger::transferred(old(self).ledger, mid_ledger, name@, recipient@, amount, now));
                    assert(Ledger::transferred(old(self).ledger, self.ledger, name@, recipient@, amount, now));
                }
                Ok(())
            },
            Err(e) => {
                self.add_message(text_of(e.message()));
                Err(e)
            },
        }
    }

    /// The balance of the account signed in, or zero when nobody is.
    pub fn get_balance(&self) -> (r: u64)
        requires
            self.wf(),
        ensures
            self.user() matches Some(name) ==> r == balance_of(self.ledger.users@, name),
            self.user() is None ==> r == 0,
    {
        match &self.current_user {
            Some(u) => match self.ledger.balance(u) {
                Some(b) => b,
                None => 0,
            },
            None => 0,
        }
    }

    /// The history of the account signed in, newest first; empty when nobody is.
    pub fn get_transactions(&self) -> (r: Vec<Transaction>)
        requires
            self.wf(),
        ensures
            self.user() matches Some(name) ==> r@ == history(self.ledger.transactions@, name)
                && history_shape(self.ledger.transactions@, name, r@),
            self.user() is None ==> r@.len() == 0,
    {
        match &self.current_user {
            Some(u) => self.ledger.history(u),
            None => Vec::new(),
        }
    }

    /// The name of the account signed in, if any.
    pub fn get_current_user(&self) -> (r: Option<&str>)
        ensures
            r is None <==> self.user() is None,
            r matches Some(s) ==> self.user() == Some(s@),
    {
        match &self.current_user {
            Some(u) => Some(u.as_str()),
            None => None,
        }
    }

    /// Applies a character or a backspace to the typed text.
    fn edit_input(&mut self, key: Key)
        requires
            old(self).wf(),
        ensures
            final(self).wf(),
            final(self).same_session(*old(self)),
            final(self).current_state == old(self).current_state,
            final(self).transfer_recipient == old(self).transfer_recipient,
            final(self).messages@ == old(self).messages@,
            final(self).input@ == edited(old(self).input@, key),
    {
        match key {
            Key::Char(c) => push_char(&mut self.input, c),
            Key::Backspace => {
                pop_char(&mut self.input);
            },
            _ => {},
        }
    }

    /// Enter on the login or account creation screen: signs in to, or opens, the account
    /// named by the typed text; the text is cleared on success.
    fn enter_credentials(&mut self)
        requires
            old(self).wf(),
            old(self).current_state == AppState::Login || old(self).current_state
                == AppState::CreateAccount,
        ensures
            final(self).wf(),
            final(self).timeout() == old(self).timeout(),
            final(self).transfer_recipient == old(self).transfer_recipient,
            final(self).ledger.transactions@ == old(self).ledger.transactions@,
            ({
                let name = old(self).input@;
                let known = has_user(old(self).ledger.users@, name);
                let signing_in = old(self).current_state == AppState::Login;
                let success = name.len() > 0 && (signing_in == known);
                &&& name.len() == 0 ==> final(self).same_session(*old(self)) && final(self).same_screen(
                    *old(self),
                ) && final(self).messages@ == old(self).messages@
                &&& success ==> final(self).user() == Some(name) && final(self).current_state
                    == AppState::LoggedIn && final(self).input@.len() == 0
                &&& success && signing_in ==> final(self).ledger.same(old(self).ledger)
                &&& success && !signing_in ==> final(self).ledger.users@ == old(self).ledger.users@.push(
                    User { username: old(self).input, balance: 0 },
                )
                &&& name.len() > 0 && !success ==> final(self).same_session(*old(self))
                    && final(self).same_screen(*old(self))
                &&& name.len() > 0 ==> noted(
                    old(self).messages@,
                    final(self).messages@,
                    credentials_notice(old(self).ledger, signing_in, name),
                )
            }),
    {
        if self.input.as_str().is_empty() {
            return;
        }
        let name = self.input.clone();
        let success = if self.current_state == AppState::Login {
            self.login(name).is_ok()
        } else {
            self.create_account(name).is_ok()
        };
        if success {
            self.input = String::new();
        }
    }

    /// Enter on the deposit or withdrawal screen: reads the typed amount, without the
    /// whitespace around it, and, if it is one,
    /// makes the deposit or withdrawal and returns to the account menu.
    fn enter_amount(&mut self)
        requires
            old(self).wf(),
            old(self).current_state == AppState::Deposit || old(self).current_state
                == AppState::Withdraw,
        ensures
            final(self).wf(),
            final(self).timeout() == old(self).timeout(),
            final(self).user() == old(self).user(),
            final(self).transfer_recipient == old(self).transfer_recipient,
            amount_value(trimmed_of(old(self).input@)) is None ==> final(self).same_session(*old(self))
                && final(self).same_screen(*old(self)) && noted(
                old(self).messages@,
                final(self).messages@,
                not_a_number(),
            ),
            amount_value(trimmed_of(old(self).input@)) matches Some(a) ==> {
                &&& final(self).input@.len() == 0
                &&& final(self).current_state == AppState::LoggedIn
                &&& old(self).current_state == AppState::Deposit ==> after_deposit(
                    old(self).ledger,
                    final(self).ledger,
                    old(self).user(),
                    a,
                )
                &&& old(self).current_state == AppState::Withdraw ==> after_withdraw(
                    old(self).ledger,
                    final(self).ledger,
                    old(self).user(),
                    a,
                )
                &&& noted(
                    old(self).messages@,
                    final(self).messages@,
                    if old(self).current_state == AppState::Deposit {
                        deposit_notice(old(self).ledger, old(self).user(), a)
                    } else {
                        withdraw_notice(old(self).ledger, old(self).user(), a)
                    },
                )
            },
    {
        match parse_amount(trim_text(self.input.as_str())) {
            Some(amount) => {
                if self.current_state == AppState::Deposit {
                    let _ = self.deposit(amount);
                } else {
                    let _ = self.withdraw(amount);
                }
                self.input = String::new();
                self.current_state = AppState::LoggedIn;
            },
            None => {
                self.add_message(text_of("Invalid amount. Please enter a valid number."));
            },
        }
    }

    /// Enter on the transfer screen: the first time the typed text becomes the recipient; the
    /// second time it is read as the amount (without the whitespace around it) and, if it is
    /// one, the transfer is made and the
    /// account menu shows again.
    fn enter_transfer(&mut self)
        requires
            old(self).wf(),
            old(self).current_state == AppState::Transfer,
        ensures
            final(self).wf(),
            final(self).timeout() == old(self).timeout(),
            final(self).user() == old(self).user(),
            old(self).transfer_recipient is None ==> final(self).same_session(*old(self))
                && final(self).current_state == old(self).current_state
                && final(self).transfer_recipient == Some(old(self).input) && final(self).input@.len()
                == 0 && final(self).messages@ == old(self).messages@,
            old(self).transfer_recipient matches Some(to) ==> {
                &&& amount_value(trimmed_of(old(self).input@)) is None ==> final(self).same_session(*old(self))
                    && final(self).same_screen(*old(self)) && noted(
                    old(self).messages@,
                    final(self).messages@,
                    not_a_number(),
                )
                &&& amount_value(trimmed_of(old(self).input@)) matches Some(a) ==> {
                    &&& final(self).transfer_recipient is None
                    &&& final(self).input@.len() == 0
                    &&& final(self).current_state == AppState::LoggedIn
                    &&& after_transfer(old(self).ledger, final(self).ledger, old(self).user(), to@, a)
                    &&& noted(
                        old(self).messages@,
                        final(self).messages@,
                        transfer_notice(old(self).ledger, old(self).user(), to@, a),
                    )
                }
            },
    {
        match &self.transfer_recipient {
            None => {
                self.transfer_recipient = Some(self.input.clone());
                self.input = String::new();
            },
            Some(to) => {
                let to = to.clone();
                match parse_amount(trim_text(self.input.as_str())) {
                    Some(amount) => {
                        self.transfer_recipient = None;
                        let _ = self.transfer(to, amount);
                        self.input = String::new();
                        self.current_state = AppState::LoggedIn;
                    },
                    None => {
                        self.add_message(text_of("Invalid amount. Please enter a valid number."));
                    },
                }
            },
        }
    }

    /// Reacts to one key press; returns false when the user asks to quit.
    pub fn handle_input(&mut self, key: Key) -> (r: bool)
        requires
            old(self).wf(),
        ensures
            final(self).wf(),
            final(self).timeout() == old(self).timeout(),
            r == !(old(self).current_state == AppState::MainMenu && key == Key::Char('q')),
            // screens without side effects
            old(self).current_state == AppState::MainMenu ==> final(self).same_session(*old(self))
                && final(self).input == old(self).input && final(self).transfer_recipient
                == old(self).transfer_recipient && final(self).messages@ == old(self).messages@
                && final(self).current_state == main_menu_choice(key),
            old(self).current_state == AppState::ViewTransactions ==> final(self).same_session(
                *old(self))
                && final(self).input == old(self).input && final(self).transfer_recipient
                == old(self).transfer_recipient && final(self).messages@ == old(self).messages@
                && final(self).current_state == (if key == Key::Esc || key == Key::Enter {
                AppState::LoggedIn
            } else {
                AppState::ViewTransactions
            }),
            old(self).current_state == AppState::LoggedIn && key == Key::Char('5')
                ==> Self::logged_out(*old(self), *final(self)),
            old(self).current_state == AppState::LoggedIn && key != Key::Char('5') ==> final(
                self).same_session(*old(self))
                && final(self).input == old(self).input && final(self).transfer_recipient
                == old(self).transfer_recipient && final(self).messages@ == old(self).messages@
                && final(self).current_state == account_menu_choice(key),
            // typing
            takes_text(old(self).current_state) && (key is Char || key is Backspace) ==> final(
                self).same_session(*old(self))
                && final(self).current_state == old(self).current_state
                && final(self).transfer_recipient == old(self).transfer_recipient
                && final(self).messages@ == old(self).messages@ && final(self).input@ == edited(
                old(self).input@,
                key,
            ),
            takes_text(old(self).current_state) && key == Key::Esc ==> final(self).same_session(
                *old(self))
                && final(self).messages@ == old(self).messages@ && final(self).input@.len() == 0
                && final(self).current_state == back_from(old(self).current_state)
                && final(self).transfer_recipient == (if old(self).current_state
                == AppState::Transfer {
                None
            } else {
                old(self).transfer_recipient
            }),
            takes_text(old(self).current_state) && key == Key::Other ==> final(self).same_session(
                *old(self))
                && final(self).same_screen(*old(self)) && final(self).messages@
                == old(self).messages@,
            // enter
            (old(self).current_state == AppState::Login || old(self).current_state
                == AppState::CreateAccount) && key == Key::Enter ==> {
                let name = old(self).input@;
                let known = has_user(old(self).ledger.users@, name);
                let signing_in = old(self).current_state == AppState::Login;
                let success = name.len() > 0 && (signing_in == known);
                &&& final(self).transfer_recipient == old(self).transfer_recipient
                &&& final(self).ledger.transactions@ == old(self).ledger.transactions@
                &&& name.len() == 0 ==> final(self).same_session(*old(self)) && final(self).same_screen(
                    *old(self),
                ) && final(self).messages@ == old(self).messages@
                &&& success ==> final(self).user() == Some(name) && final(self).current_state
                    == AppState::LoggedIn && final(self).input@.len() == 0
                &&& success && signing_in ==> final(self).ledger.same(old(self).ledger)
                &&& success && !signing_in ==> final(self).ledger.users@ == old(self).ledger.users@.push(
                    User { username: old(self).input, balance: 0 },
                )
                &&& name.len() > 0 && !success ==> final(self).same_session(*old(self))
                    && final(self).same_screen(*old(self))
                &&& name.len() > 0 ==> noted(
                    old(self).messages@,
                    final(self).messages@,
                    credentials_notice(old(self).ledger, signing_in, name),
                )
            },
            (old(self).current_state == AppState::Deposit || old(self).current_state
                == AppState::Withdraw) && key == Key::Enter ==> {
                &&& final(self).user() == old(self).user()
                &&& final(self).transfer_recipient == old(self).transfer_recipient
                &&& amount_value(trimmed_of(old(self).input@)) is None ==> final(self).same_session(*old(self))
                    && final(self).same_screen(*old(self)) && noted(
                    old(self).messages@,
                    final(self).messages@,
                    not_a_number(),
                )
                &&& amount_value(trimmed_of(old(self).input@)) matches Some(a) ==> {
                    &&& final(self).input@.len() == 0
                    &&& final(self).current_state == AppState::LoggedIn
                    &&& old(self).current_state == AppState::Deposit ==> after_deposit(
                        old(self).ledger,
                        final(self).ledger,
                        old(self).user(),
                        a,
                    )
                    &&& old(self).current_state == AppState::Withdraw ==> after_withdraw(
                        old(self).ledger,
                        final(self).ledger,
                        old(self).user(),
                        a,
                    )
                    &&& noted(
                        old(self).messages@,
                        final(self).messages@,
                        if old(self).current_state == AppState::Deposit {
                            deposit_notice(old(self).ledger, old(self).user(), a)
                        } else {
                            withdraw_notice(old(self).ledger, old(self).user(), a)
                        },
                    )
                }
            },
            old(self).current_state == AppState::Transfer && key == Key::Enter ==> {
                &&& final(self).user() == old(self).user()
                &&& old(self).transfer_recipient is None ==> final(self).same_session(*old(self))
                    && final(self).current_state == old(self).current_state
                    && final(self).transfer_recipient == Some(old(self).input)
                    && final(self).input@.len() == 0 && final(self).messages@ == old(self).messages@
                &&& old(self).transfer_recipient matches Some(to) ==> {
                    &&& amount_value(trimmed_of(old(self).input@)) is None ==> final(self).same_session(
                        *old(self))
                        && final(self).same_screen(*old(self)) && noted(
                        old(self).messages@,
                        final(self).messages@,
                        not_a_number(),
                    )
                    &&& amount_value(trimmed_of(old(self).input@)) matches Some(a) ==> {
                        &&& final(self).transfer_recipient is None
                        &&& final(self).input@.len() == 0
                        &&& final(self).current_state == AppState::LoggedIn
                        &&& after_transfer(
                            old(self).ledger,
                            final(self).ledger,
                            old(self).user(),
                            to@,
                            a,
                        )
                        &&& noted(
                            old(self).messages@,
                            final(self).messages@,
                            transfer_notice(old(self).ledger, old(self).user(), to@, a),
                        )
                    }
                }
            },
    {
        match self.current_state {
            AppState::MainMenu => match key {
                Key::Char('1') => self.current_state = AppState::Login,
                Key::Char('2') => self.current_state = AppState::CreateAccount,
                Key::Char('q') => return false,
                _ => {},
            },
            AppState::Login | AppState::CreateAccount => match key {
                Key::Enter => self.enter_credentials(),
                Key::Char(_) | Key::Backspace => self.edit_input(key),
                Key::Esc => {
                    self.current_state = AppState::MainMenu;
                    self.input = String::new();
                },
                Key::Other => {},
            },
            AppState::LoggedIn => match key {
                Key::Char('1') => self.current_state = AppState::Deposit,
                Key::Char('2') => self.current_state = AppState::Withdraw,
                Key::Char('3') => self.current_state = AppState::Transfer,
                Key::Char('4') => self.current_state = AppState::ViewTransactions,
                Key::Char('5') => self.logout(),
                _ => {},
            },
            AppState::Deposit | AppState::Withdraw => match key {
                Key::Enter => self.enter_amount(),
                Key::Char(_) | Key::Backspace => self.edit_input(key),
                Key::Esc => {
                    self.current_state = AppState::LoggedIn;
                    self.input = String::new();
                },
                Key::Other => {},
            },
            AppState::Transfer => match key {
                Key::Enter => self.enter_transfer(),
                Key::Char(_) | Key::Backspace => self.edit_input(key),
                Key::Esc => {
                    self.current_state = AppState::LoggedIn;
                    self.input = String::new();
                    self.transfer_recipient = None;
                },
                Key::Other => {},
            },
            AppState::ViewTransactions => {
                if key == Key::Esc || key == Key::Enter {
                    self.current_state = AppState::LoggedIn;
                }
            },
        }
        true
    }

    /// Signs out; the main menu shows again.
    pub fn logout(&mut self)
        requires
            old(self).wf(),
        ensures
            final(self).wf(),
            Self::logged_out(*old(self), *final(self)),
    {
        self.current_user = None;
        self.current_state = AppState::MainMenu;
        self.add_message(text_of("Logged out successfully."));
    }
}

/// Logging out twice in a row leaves the session as one logout does; only a second notice is
/// added.
pub proof fn lemma_logout_twice(a: AppController, b: AppController, c: AppController)
    requires
        AppController::logged_out(a, b),
        AppController::logged_out(b, c),
    ensures
        c.same_session(b),
        c.same_screen(b),
        c.user() is None,
        c.messages@.drop_last() == b.messages@,
{
}

} // verus!
