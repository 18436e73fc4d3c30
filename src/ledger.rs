use vstd::prelude::*;
use crate::models::transaction::{
    account_flow, delta, history, history_shape, lemma_account_flow_absent, lemma_account_flow_push,
    lemma_net_flow_push, lemma_snapshots_push, lemma_transfer_history, log_wf, net_flow,
    snapshot_ok, snapshots_match, stored,
    transfer_pair, Transaction, TransactionType,
};
use crate::models::user::{
    balance_of, has_user, lemma_balance_after, lemma_name_at, lemma_with_balance_names, total,
    unique_names, with_balance, User,
};

verus! {

/// Why a ledger or session operation did not take place.
#[derive(PartialEq, Eq, Structural, Clone, Copy, Debug)]
pub enum LedgerError {
    NotAuthenticated,
    UserNotFound,
    AlreadyExists,
    RecipientNotFound,
    /// The amount is zero.
    InvalidAmount,
    InsufficientFunds,
    /// A balance would exceed the largest representable amount.
    AmountTooLarge,
    /// The log holds as many records as it can address.
    StorageFull,
}

impl LedgerError {
    /// The text of `message`.
    pub open spec fn describe(self) -> Seq<char> {
        match self {
            LedgerError::NotAuthenticated => "Please log in first."@,
            LedgerError::UserNotFound => "User does not exist. Please try again."@,
            LedgerError::AlreadyExists => "Username already exists. Please choose a different username."@,
            LedgerError::RecipientNotFound => "Transfer failed. Recipient not found."@,
            LedgerError::InvalidAmount => "Invalid amount. Please enter a positive number."@,
            LedgerError::InsufficientFunds => "Insufficient funds."@,
            LedgerError::AmountTooLarge => "Amount too large."@,
            LedgerError::StorageFull => "The transaction log is full."@,
        }
    }

    /// A line for the user describing the failure.
    pub fn message(&self) -> (r: &'static str)
        ensures
            r@ == self.describe(),
    {
        match self {
            LedgerError::NotAuthenticated => "Please log in first.",
            LedgerError::UserNotFound => "User does not exist. Please try again.",
            LedgerError::AlreadyExists => "Username already exists. Please choose a different username.",
            LedgerError::RecipientNotFound => "Transfer failed. Recipient not found.",
            LedgerError::InvalidAmount => "Invalid amount. Please enter a positive number.",
            LedgerError::InsufficientFunds => "Insufficient funds.",
            LedgerError::AmountTooLarge => "Amount too large.",
            LedgerError::StorageFull => "The transaction log is full.",
        }
    }
}

/// The log has room for the (at most two) records of one more operation.
pub open spec fn log_has_room(log: Seq<Transaction>) -> bool {
    log.len() + 1 < usize::MAX
}

/// Account balances together with the append-only transaction log.
pub struct Ledger {
    pub users: Vec<User>,
    pub transactions: Vec<Transaction>,
}

/// A running sum of `k` amounts, each at most `u64::MAX`, stays within `u64::MAX * u64::MAX`
/// (so within a `u128`) while `k` counts positions of a `Vec`; one more amount moves its
/// bound by `u64::MAX`.
pub proof fn lemma_sum_bound_step(k: int)
    requires
        0 <= k < usize::MAX,
    ensures
        (k + 1) * (u64::MAX as int) <= u64::MAX as int * u64::MAX as int,
        k * (u64::MAX as int) + u64::MAX == (k + 1) * (u64::MAX as int),
{
    assert(k < u64::MAX);
    assert((k + 1) * (u64::MAX as int) <= u64::MAX as int * u64::MAX as int) by (nonlinear_arith)
        requires
            0 <= k < u64::MAX,
    ;
    assert(k * (u64::MAX as int) + u64::MAX == (k + 1) * (u64::MAX as int)) by (nonlinear_arith);
}

/// Whether every record filed under `name` has balances that agree with the records before it.
fn snapshots_ok_for(log: &Vec<Transaction>, name: &String) -> (r: bool)
    ensures
        r == forall|i: int|
            0 <= i < log@.len() && #[trigger] log@[i].username@ == name@ ==> snapshot_ok(log@, i),
{
    let m = log.len();
    let mut added: u128 = 0;
    let mut taken: u128 = 0;
    let mut k: usize = 0;
    while k < m
        invariant
            m == log.len(),
            k <= m,
            added <= k * (u64::MAX as int),
            taken <= k * (u64::MAX as int),
            account_flow(log@.take(k as int), name@) == added - taken,
            forall|i: int| 0 <= i < k && #[trigger] log@[i].username@ == name@ ==> snapshot_ok(log@, i),
        decreases m - k,
    {
        proof {
            lemma_sum_bound_step(k as int);
            assert(log@.take(k + 1).drop_last() =~= log@.take(k as int));
        }
        let t = &log[k];
        if t.username == *name {
            let before = t.previous_balance as u128;
            let amount = t.amount as u128;
            let after = t.new_balance as u128;
            if before + taken != added {
                return false;
            }
            match t.transaction_type {
                TransactionType::Deposit | TransactionType::TransferIn => {
                    if after != before + amount {
                        return false;
                    }
                    added = added + amount;
                },
                TransactionType::Withdraw | TransactionType::TransferOut => {
                    if after + amount != before {
                        return false;
                    }
                    taken = taken + amount;
                },
            }
            assert(snapshot_ok(log@, k as int));
        }
        k = k + 1;
    }
    true
}

/// What the records filed under `name` added to and took from its balance, in that order.
fn flow_of(log: &Vec<Transaction>, name: &String) -> (r: (u128, u128))
    ensures
        r.0 - r.1 == account_flow(log@, name@),
{
    let m = log.len();
    let mut added: u128 = 0;
    let mut taken: u128 = 0;
    let mut k: usize = 0;
    while k < m
        invariant
            m == log.len(),
            k <= m,
            added <= k * (u64::MAX as int),
            taken <= k * (u64::MAX as int),
            account_flow(log@.take(k as int), name@) == added - taken,
        decreases m - k,
    {
        proof {
            lemma_sum_bound_step(k as int);
            assert(log@.take(k + 1).drop_last() =~= log@.take(k as int));
        }
        let t = &log[k];
        if t.username == *name {
            match t.transaction_type {
                TransactionType::Deposit | TransactionType::TransferIn => {
                    added = added + t.amount as u128;
                },
                TransactionType::Withdraw | TransactionType::TransferOut => {
                    taken = taken + t.amount as u128;
                },
            }
        }
        k = k + 1;
    }
    proof {
        assert(log@.take(m as int) =~= log@);
    }
    (added, taken)
}

impl Ledger {
    /// Names are unique, the log has consecutive ids and ordered timestamps, the money held in
    /// all accounts together is what the log shows deposited minus what it shows withdrawn,
    /// each account's balance is what its own records add up to, and each record's balances
    /// agree with the records before it.
    pub open spec fn wf(&self) -> bool {
        &&& unique_names(self.users@)
        &&& log_wf(self.transactions@)
        &&& total(self.users@) == net_flow(self.transactions@)
        &&& accounts_match_log(self.users@, self.transactions@)
        &&& snapshots_match(self.transactions@)
    }

    /// Both tables hold what they hold in `other`.
    pub open spec fn same(&self, other: Ledger) -> bool {
        self.users@ == other.users@ && self.transactions@ == other.transactions@
    }

    /// The accounts of `post` are those of `pre`; `name` holds `balance` and every other account
    /// holds what it held.
    pub open spec fn rebalanced(pre: Seq<User>, post: Seq<User>, name: Seq<char>, balance: u64) -> bool {
        &&& forall|n: Seq<char>| #[trigger] has_user(post, n) == has_user(pre, n)
        &&& has_user(post, name) && balance_of(post, name) == balance
        &&& forall|n: Seq<char>|
            n != name && has_user(pre, n) ==> #[trigger] balance_of(post, n) == balance_of(pre, n)
    }

    /// The accounts of `post` are those of `pre` and a new one, `name`, holding nothing; every
    /// other account holds what it held.
    pub open spec fn opened(pre: Seq<User>, post: Seq<User>, name: Seq<char>) -> bool {
        &&& forall|n: Seq<char>| #[trigger] has_user(post, n) == (has_user(pre, n) || n == name)
        &&& balance_of(post, name) == 0
        &&& forall|n: Seq<char>|
            n != name && has_user(pre, n) ==> #[trigger] balance_of(post, n) == balance_of(pre, n)
    }

    /// `post` is `pre` after a deposit of `amount` into `name` at time `now`: the balance grows
    /// by `amount`, one deposit record with both balances is appended, and the money held in
    /// all accounts grows by `amount`.
    pub open spec fn deposited(pre: Ledger, post: Ledger, name: Seq<char>, amount: u64, now: i64) -> bool {
        let before = balance_of(pre.users@, name);
        let after = (before + amount) as u64;
        let log = pre.transactions@;
        let rec = post.transactions@[log.len() as int];
        let made = stored(log, Transaction {
            id: 0,
            username: rec.username,
            transaction_type: TransactionType::Deposit,
            amount,
            recipient: None,
            sender: None,
            previous_balance: before as u64,
            new_balance: after,
            timestamp: now,
        });
        &&& post.users@ == with_balance(pre.users@, name, after)
        &&& post.transactions@ == log.push(rec)
        &&& rec == made
        &&& rec.username@ == name
        &&& Self::rebalanced(pre.users@, post.users@, name, after)
        &&& total(post.users@) == total(pre.users@) + amount
    }

    /// `post` is `pre` after a withdrawal of `amount` from `name` at time `now`: the balance
    /// shrinks by `amount` and stays non-negative, one withdrawal record with both balances is
    /// appended, and the money held in all accounts shrinks by `amount`.
    pub open spec fn withdrew(pre: Ledger, post: Ledger, name: Seq<char>, amount: u64, now: i64) -> bool {
        let before = balance_of(pre.users@, name);
        let after = (before - amount) as u64;
        let log = pre.transactions@;
        let rec = post.transactions@[log.len() as int];
        let made = stored(log, Transaction {
            id: 0,
            username: rec.username,
            transaction_type: TransactionType::Withdraw,
            amount,
            recipient: None,
            sender: None,
            previous_balance: before as u64,
            new_balance: after,
            timestamp: now,
        });
        &&& amount <= before
        &&& post.users@ == with_balance(pre.users@, name, after)
        &&& post.transactions@ == log.push(rec)
        &&& rec == made
        &&& rec.username@ == name
        &&& Self::rebalanced(pre.users@, post.users@, name, after)
        &&& total(post.users@) == total(pre.users@) - amount
    }

    /// `post` is `pre` after `amount` moved from `from` to `to` at time `now`: the sender is
    /// debited (never below zero) and then the recipient credited, a transfer_out record for
    /// the sender and a transfer_in record for the recipient are appended in that order, and
    /// the money held in all accounts is unchanged.
    pub open spec fn transferred(
        pre: Ledger,
        post: Ledger,
        from: Seq<char>,
        to: Seq<char>,
        amount: u64,
        now: i64,
    ) -> bool {
        let log = pre.transactions@;
        let sender_before = balance_of(pre.users@, from);
        let mid = with_balance(pre.users@, from, (sender_before - amount) as u64);
        let recipient_before = balance_of(mid, to);
        let out = post.transactions@[log.len() as int];
        let inc = post.transactions@[log.len() + 1int];
        &&& amount <= sender_before
        &&& post.users@ == Self::moved(pre.users@, from, to, amount)
        &&& Self::rebalanced(pre.users@, mid, from, (sender_before - amount) as u64)
        &&& Self::rebalanced(mid, post.users@, to, (recipient_before + amount) as u64)
        &&& post.transactions@.len() == log.len() + 2
        &&& post.transactions@.take(log.len() as int) == log
        &&& transfer_pair(out, inc, from, to, amount)
        &&& out == stored(log, Transaction {
            id: 0,
            username: out.username,
            transaction_type: TransactionType::TransferOut,
            amount,
            recipient: out.recipient,
            sender: None,
            previous_balance: sender_before as u64,
            new_balance: (sender_before - amount) as u64,
            timestamp: now,
        })
        &&& inc == stored(log.push(out), Transaction {
            id: 0,
            username: inc.username,
            transaction_type: TransactionType::TransferIn,
            amount,
            recipient: None,
            sender: inc.sender,
            previous_balance: recipient_before as u64,
            new_balance: (recipient_before + amount) as u64,
            timestamp: now,
        })
        &&& total(post.users@) == total(pre.users@)
    }

    /// What `deposit` returns.
    pub open spec fn deposit_result(&self, name: Seq<char>, amount: u64) -> Result<(), LedgerError> {
        if !has_user(self.users@, name) {
            Err(LedgerError::UserNotFound)
        } else if amount == 0 {
            Err(LedgerError::InvalidAmount)
        } else if balance_of(self.users@, name) + amount > u64::MAX {
            Err(LedgerError::AmountTooLarge)
        } else if !log_has_room(self.transactions@) {
            Err(LedgerError::StorageFull)
        } else {
            Ok(())
        }
    }

    /// What `withdraw` returns.
    pub open spec fn withdraw_result(&self, name: Seq<char>, amount: u64) -> Result<(), LedgerError> {
        if !has_user(self.users@, name) {
            Err(LedgerError::UserNotFound)
        } else if amount == 0 {
            Err(LedgerError::InvalidAmount)
        } else if amount > balance_of(self.users@, name) {
            Err(LedgerError::InsufficientFunds)
        } else if !log_has_room(self.transactions@) {
            Err(LedgerError::StorageFull)
        } else {
            Ok(())
        }
    }

    /// What `transfer` returns; the checks come in this order.
    pub open spec fn transfer_result(&self, from: Seq<char>, to: Seq<char>, amount: u64) -> Result<
        (),
        LedgerError,
    > {
        if !has_user(self.users@, from) {
            Err(LedgerError::UserNotFound)
        } else if !has_user(self.users@, to) {
            Err(LedgerError::RecipientNotFound)
        } else if amount == 0 {
            Err(LedgerError::InvalidAmount)
        } else if amount > balance_of(self.users@, from) {
            Err(LedgerError::InsufficientFunds)
        } else if from != to && balance_of(self.users@, to) + amount > u64::MAX {
            Err(LedgerError::AmountTooLarge)
        } else if !log_has_room(self.transactions@) {
            Err(LedgerError::StorageFull)
        } else {
            Ok(())
        }
    }

    /// An empty ledger.
    pub fn new() -> (r: Ledger)
        ensures
            r.wf(),
            r.users@.len() == 0,
            r.transactions@.len() == 0,
    {
        Ledger { users: Vec::new(), transactions: Vec::new() }
    }

    /// A ledger over tables read back from storage, if they have the shape that every ledger
    /// keeps.
    pub fn restore(users: Vec<User>, transactions: Vec<Transaction>) -> (r: Option<Ledger>)
        ensures
            r is Some <==> (Ledger { users, transactions }).wf(),
            r matches Some(l) ==> l.users@ == users@ && l.transactions@ == transactions@,
    {
        // names are unique
        let n = users.len();
        let mut i: usize = 0;
        while i < n
            invariant
                n == users.len(),
                i <= n,
                forall|a: int, b: int|
                    0 <= a < i && 0 <= b < i && #[trigger] users@[a].username@
                        == #[trigger] users@[b].username@ ==> a == b,
            decreases n - i,
        {
            let mut j: usize = 0;
            while j < i
                invariant
                    n == users.len(),
                    j <= i < n,
                    forall|b: int| 0 <= b < j ==> #[trigger] users@[b].username@ != users@[i as int].username@,
                decreases i - j,
            {
                if users[j].username == users[i].username {
                    return None;
                }
                j = j + 1;
            }
            i = i + 1;
        }
        // ids are consecutive and timestamps ordered; deposits and withdrawals are summed
        let m = transactions.len();
        let mut k: usize = 0;
        let mut deposits: u128 = 0;
        let mut withdrawals: u128 = 0;
        while k < m
            invariant
                m == transactions.len(),
                k <= m,
                forall|a: int| 0 <= a < k ==> #[trigger] transactions@[a].id == a + 1,
                forall|a: int, b: int|
                    0 <= a <= b < k ==> #[trigger] transactions@[a].timestamp
                        <= #[trigger] transactions@[b].timestamp,
                deposits <= k * (u64::MAX as int),
                withdrawals <= k * (u64::MAX as int),
                net_flow(transactions@.take(k as int)) == deposits - withdrawals,
            decreases m - k,
        {
            let t = &transactions[k];
            if t.id as u128 != k as u128 + 1 {
                return None;
            }
            if k > 0 && transactions[k - 1].timestamp > t.timestamp {
                return None;
            }
            proof {
                lemma_sum_bound_step(k as int);
                let p = transactions@.take(k + 1);
                assert(p.drop_last() =~= transactions@.take(k as int));
                assert forall|a: int, b: int|
                    0 <= a <= b < k + 1 implies #[trigger] transactions@[a].timestamp
                        <= #[trigger] transactions@[b].timestamp by {
                    if b == k && a < k {
                        assert(transactions@[a].timestamp <= transactions@[k - 1].timestamp);
                    }
                }
            }
            match t.transaction_type {
                TransactionType::Deposit => {
                    deposits = deposits + t.amount as u128;
                },
                TransactionType::Withdraw => {
                    withdrawals = withdrawals + t.amount as u128;
                },
                _ => {},
            }
            k = k + 1;
        }
        proof {
            assert(transactions@.take(m as int) =~= transactions@);
        }
        // the balances add up to what the log shows
        let mut held: u128 = 0;
        let mut u: usize = 0;
        while u < n
            invariant
                n == users.len(),
                u <= n,
                held == total(users@.take(u as int)),
                held <= u * (u64::MAX as int),
            decreases n - u,
        {
            proof {
                lemma_sum_bound_step(u as int);
                assert(users@.take(u + 1).drop_last() =~= users@.take(u as int));
            }
            held = held + users[u].balance as u128;
            u = u + 1;
        }
        proof {
            assert(users@.take(n as int) =~= users@);
        }
        if deposits < withdrawals || held != deposits - withdrawals {
            return None;
        }
        // every record is filed under an account
        let mut k: usize = 0;
        while k < m
            invariant
                m == transactions.len(),
                k <= m,
                forall|a: int| 0 <= a < k ==> has_user(users@, #[trigger] transactions@[a].username@),
            decreases m - k,
        {
            if User::find(&users, &transactions[k].username).is_none() {
                return None;
            }
            k = k + 1;
        }
        // every balance is what its records add up to
        let mut u: usize = 0;
        while u < n
            invariant
                n == users.len(),
                u <= n,
                unique_names(users@),
                forall|a: int|
                    0 <= a < u ==> #[trigger] users@[a].balance == account_flow(
                        transactions@,
                        users@[a].username@,
                    ),
            decreases n - u,
        {
            let (added, taken) = flow_of(&transactions, &users[u].username);
            if added < taken || users[u].balance as u128 != added - taken {
                proof {
                    lemma_name_at(users@, u as int, 0);
                }
                return None;
            }
            u = u + 1;
        }
        // every record's balances agree with the records before it
        let mut u: usize = 0;
        while u < n
            invariant
                n == users.len(),
                u <= n,
                forall|a: int, i: int|
                    0 <= a < u && 0 <= i < transactions@.len() && #[trigger] transactions@[i].username@
                        == #[trigger] users@[a].username@ ==> snapshot_ok(transactions@, i),
            decreases n - u,
        {
            if !snapshots_ok_for(&transactions, &users[u].username) {
                return None;
            }
            u = u + 1;
        }
        proof {
            assert forall|i: int| 0 <= i < transactions@.len() implies #[trigger] snapshot_ok(
                transactions@,
                i,
            ) by {
                let name = transactions@[i].username@;
                assert(has_user(users@, name));
                let a = choose|a: int| 0 <= a < users@.len() && #[trigger] users@[a].username@ == name;
                assert(transactions@[i].username@ == users@[a].username@);
            }
        }
        proof {
            assert forall|name: Seq<char>| has_user(users@, name) implies #[trigger] balance_of(users@, name)
                == account_flow(transactions@, name) by {
                let a = choose|a: int| 0 <= a < users@.len() && #[trigger] users@[a].username@ == name;
                lemma_name_at(users@, a, 0);
            }
        }
        Some(Ledger { users, transactions })
    }

    /// Whether an account is named `username`.
    pub fn has_account(&self, username: &String) -> (r: bool)
        ensures
            r == has_user(self.users@, username@),
    {
        User::find(&self.users, username).is_some()
    }

    /// The balance of the account named `username`, if any.
    pub fn balance(&self, username: &String) -> (r: Option<u64>)
        requires
            self.wf(),
        ensures
            r is None <==> !has_user(self.users@, username@),
            r matches Some(b) ==> b == balance_of(self.users@, username@),
    {
        match User::get(&self.users, username) {
            Some(u) => Some(u.balance),
            None => None,
        }
    }

    /// Opens the account `username` with a zero balance.
    pub fn create_account(&mut self, username: &String) -> (r: Result<(), LedgerError>)
        requires
            old(self).wf(),
        ensures
            final(self).wf(),
            r is Ok <==> !has_user(old(self).users@, username@),
            r is Err ==> r == Err::<(), LedgerError>(LedgerError::AlreadyExists) 
                && final(self).same(*old(self)),
            r is Ok ==> final(self).users@ == old(self).users@.push(
                User { username: *username, balance: 0 },
            ) && Self::opened(old(self).users@, final(self).users@, username@),
            final(self).transactions@ == old(self).transactions@,
            total(final(self).users@) == total(old(self).users@),
    {
        if User::create(&mut self.users, username) {
            proof {
                let pre = old(self).users@;
                let s = final(self).users@;
                assert(s.drop_last() =~= pre);
                let k = pre.len() as int;
                assert(s[k].username@ == username@);
                lemma_name_at(s, k, 0);
                assert forall|n: Seq<char>| #[trigger] has_user(s, n) == (has_user(pre, n) || n == username@) by {
                    if has_user(pre, n) {
                        let i = choose|i: int| 0 <= i < pre.len() && #[trigger] pre[i].username@ == n;
                        assert(s[i].username@ == n);
                    }
                    if has_user(s, n) && n != username@ {
                        let i = choose|i: int| 0 <= i < s.len() && #[trigger] s[i].username@ == n;
                        assert(pre[i].username@ == n);
                    }
                }
                assert forall|n: Seq<char>| n != username@ && has_user(pre, n) implies #[trigger] balance_of(s, n)
                    == balance_of(pre, n) by {
                    let i = choose|i: int| 0 <= i < pre.len() && #[trigger] pre[i].username@ == n;
                    lemma_name_at(pre, i, 0);
                    assert(s[i] == pre[i]);
                    lemma_name_at(s, i, 0);
                }
                let log = self.transactions@;
                assert forall|i: int| 0 <= i < log.len() implies #[trigger] log[i].username@ != username@ by {
                    assert(has_user(pre, log[i].username@));
                }
                lemma_account_flow_absent(log, username@);
                assert forall|i: int| 0 <= i < log.len() implies has_user(s, #[trigger] log[i].username@) by {
                    assert(has_user(pre, log[i].username@));
                    assert(has_user(s, log[i].username@) == (has_user(pre, log[i].username@) || log[i].username@ == username@));
                }
                assert forall|n: Seq<char>| has_user(s, n) implies #[trigger] balance_of(s, n)
                    == account_flow(log, n) by {
                    assert(has_user(s, n) == (has_user(pre, n) || n == username@));
                }
            }
            Ok(())
        } else {
            Err(LedgerError::AlreadyExists)
        }
    }

    /// Credits `amount` to the account `username` and logs a deposit record; on failure nothing
    /// changes.
    pub fn deposit(&mut self, username: &String, amount: u64, now: i64) -> (r: Result<(), LedgerError>)
        requires
            old(self).wf(),
        ensures
            final(self).wf(),
            r == old(self).deposit_result(username@, amount),
            r is Err ==> final(self).same(*old(self)),
            r is Ok ==> Self::deposited(*old(self), *final(self), username@, amount, now),
    {
        let before = match User::get(&self.users, username) {
            Some(u) => u.balance,
            None => {
                return Err(LedgerError::UserNotFound);
            },
        };
        if amount == 0 {
            return Err(LedgerError::InvalidAmount);
        }
        if amount > u64::MAX - before {
            return Err(LedgerError::AmountTooLarge);
        }
        if self.transactions.len() >= usize::MAX - 1 {
            return Err(LedgerError::StorageFull);
        }
        let after = before + amount;
        proof {
            let i = choose|i: int|
                0 <= i < old(self).users@.len() && #[trigger] old(self).users@[i].username@
                    == username@;
            lemma_name_at(old(self).users@, i, after);
            lemma_rebalanced(old(self).users@, username@, after);
        }
        User::update_balance(&mut self.users, username, after);
        let record = Transaction::new(
            username.clone(),
            TransactionType::Deposit,
            amount,
            None,
            None,
            before,
            after,
            now,
        );
        Transaction::create(&mut self.transactions, &record);
        proof {
            lemma_net_flow_push(old(self).transactions@, stored(old(self).transactions@, record));
            lemma_snapshots_push(old(self).transactions@, stored(old(self).transactions@, record));
            lemma_match_one_record(
                old(self).users@,
                old(self).transactions@,
                self.users@,
                stored(old(self).transactions@, record),
                username@,
                after,
            );
        }
        Ok(())
    }

    /// Debits `amount` from the account `username` and logs a withdrawal record; on failure
    /// nothing changes, so no balance ever drops below zero.
    pub fn withdraw(&mut self, username: &String, amount: u64, now: i64) -> (r: Result<(), LedgerError>)
        requires
            old(self).wf(),
        ensures
            final(self).wf(),
            r == old(self).withdraw_result(username@, amount),
            r is Err ==> final(self).same(*old(self)),
            r is Ok ==> Self::withdrew(*old(self), *final(self), username@, amount, now),
    {
        let before = match User::get(&self.users, username) {
            Some(u) => u.balance,
            None => {
                return Err(LedgerError::UserNotFound);
            },
        };
        if amount == 0 {
            return Err(LedgerError::InvalidAmount);
        }
        if amount > before {
            return Err(LedgerError::InsufficientFunds);
        }
        if self.transactions.len() >= usize::MAX - 1 {
            return Err(LedgerError::StorageFull);
        }
        let after = before - amount;
        proof {
            let i = choose|i: int|
                0 <= i < old(self).users@.len() && #[trigger] old(self).users@[i].username@
                    == username@;
            lemma_name_at(old(self).users@, i, after);
            lemma_rebalanced(old(self).users@, username@, after);
        }
        User::update_balance(&mut self.users, username, after);
        let record = Transaction::new(
            username.clone(),
            TransactionType::Withdraw,
            amount,
            None,
            None,
            before,
            after,
            now,
        );
        Transaction::create(&mut self.transactions, &record);
        proof {
            lemma_net_flow_push(old(self).transactions@, stored(old(self).transactions@, record));
            lemma_snapshots_push(old(self).transactions@, stored(old(self).transactions@, record));
            lemma_match_one_record(
                old(self).users@,
                old(self).transactions@,
                self.users@,
                stored(old(self).transactions@, record),
                username@,
                after,
            );
        }
        Ok(())
    }

    /// The balances after `amount` leaves `from` and then reaches `to`.
    pub open spec fn moved(users: Seq<User>, from: Seq<char>, to: Seq<char>, amount: u64) -> Seq<User> {
        let mid = with_balance(users, from, (balance_of(users, from) - amount) as u64);
        with_balance(mid, to, (balance_of(mid, to) + amount) as u64)
    }

    /// Moves `amount` from the account `from` to the account `to` and logs one record for each
    /// side, all or nothing. A transfer to oneself leaves the balance as it was and still logs
    /// both records.
    pub fn transfer(&mut self, from: &String, to: &String, amount: u64, now: i64) -> (r: Result<
        (),
        LedgerError,
    >)
        requires
            old(self).wf(),
        ensures
            final(self).wf(),
            r == old(self).transfer_result(from@, to@, amount),
            r is Err ==> final(self).same(*old(self)),
            r is Ok ==> Self::transferred(*old(self), *final(self), from@, to@, amount, now),
    {
        let sender_before = match User::get(&self.users, from) {
            Some(u) => u.balance,
            None => {
                return Err(LedgerError::UserNotFound);
            },
        };
        let recipient_balance = match User::get(&self.users, to) {
            Some(u) => u.balance,
            None => {
                return Err(LedgerError::RecipientNotFound);
            },
        };
        if amount == 0 {
            return Err(LedgerError::InvalidAmount);
        }
        if amount > sender_before {
            return Err(LedgerError::InsufficientFunds);
        }
        let same = *from == *to;
        if !same && amount > u64::MAX - recipient_balance {
            return Err(LedgerError::AmountTooLarge);
        }
        if self.transactions.len() >= usize::MAX - 1 {
            return Err(LedgerError::StorageFull);
        }
        let sender_after = sender_before - amount;
        let ghost users0 = self.users@;
        proof {
            let i = choose|i: int|
                0 <= i < users0.len() && #[trigger] users0[i].username@ == from@;
            lemma_name_at(users0, i, sender_after);
            lemma_rebalanced(users0, from@, sender_after);
        }
        User::update_balance(&mut self.users, from, sender_after);
        let ghost users1 = self.users@;
        let recipient_before = if same {
            sender_after
        } else {
            recipient_balance
        };
        let recipient_after = recipient_before + amount;
        proof {
            let j = choose|j: int|
                0 <= j < users0.len() && #[trigger] users0[j].username@ == to@;
            assert(users1[j].username@ == to@);
            lemma_name_at(users1, j, recipient_after);
            lemma_rebalanced(users1, to@, recipient_after);
            if !same {
                lemma_name_at(users0, j, 0);
                assert(users1[j] == users0[j]);
            }
        }
        User::update_balance(&mut self.users, to, recipient_after);
        let out = Transaction::new(
            from.clone(),
            TransactionType::TransferOut,
            amount,
            Some(to.clone()),
            None,
            sender_before,
            sender_after,
            now,
        );
        let inc = Transaction::new(
            to.clone(),
            TransactionType::TransferIn,
            amount,
            None,
            Some(from.clone()),
            recipient_before,
            recipient_after,
            now,
        );
        let ghost log0 = self.transactions@;
        Transaction::create(&mut self.transactions, &out);
        let ghost log1 = self.transactions@;
        Transaction::create(&mut self.transactions, &inc);
        proof {
            lemma_net_flow_push(log0, stored(log0, out));
            lemma_net_flow_push(log1, stored(log1, inc));
            lemma_snapshots_push(log0, stored(log0, out));
            lemma_match_one_record(users0, log0, users1, stored(log0, out), from@, sender_after);
            lemma_snapshots_push(log1, stored(log1, inc));
            lemma_match_one_record(users1, log1, self.users@, stored(log1, inc), to@, recipient_after);
            let post = self.transactions@;
            assert(post.take(log0.len() as int) =~= log0);
            assert(post[log0.len() as int] == stored(log0, out));
            assert(post[log0.len() + 1int] == stored(log1, inc));
            assert(log1 == log0.push(stored(log0, out)));
        }
        Ok(())
    }

    /// The history of `username`, newest first.
    pub fn history(&self, username: &String) -> (r: Vec<Transaction>)
        requires
            self.wf(),
        ensures
            r@ == history(self.transactions@, username@),
            history_shape(self.transactions@, username@, r@),
    {
        Transaction::get_user_transactions(&self.transactions, username)
    }
}

/// Every record is filed under an existing account, and every balance is the sum of what the
/// records filed under that account added and took.
pub open spec fn accounts_match_log(users: Seq<User>, log: Seq<Transaction>) -> bool {
    &&& forall|i: int| 0 <= i < log.len() ==> has_user(users, #[trigger] log[i].username@)
    &&& forall|n: Seq<char>| has_user(users, n) ==> #[trigger] balance_of(users, n) == account_flow(log, n)
}

/// One record filed under `name`, with the balance of `name` moved by its delta, keeps the
/// accounts matching the log.
pub proof fn lemma_match_one_record(
    users: Seq<User>,
    log: Seq<Transaction>,
    users2: Seq<User>,
    rec: Transaction,
    name: Seq<char>,
    after: u64,
)
    requires
        accounts_match_log(users, log),
        Ledger::rebalanced(users, users2, name, after),
        rec.username@ == name,
        after == balance_of(users, name) + delta(rec, name),
    ensures
        accounts_match_log(users2, log.push(rec)),
{
    let log2 = log.push(rec);
    assert forall|i: int| 0 <= i < log2.len() implies has_user(users2, #[trigger] log2[i].username@) by {
        if i < log.len() {
            assert(log2[i] == log[i]);
            assert(has_user(users, log[i].username@));
            assert(has_user(users2, log[i].username@) == has_user(users, log[i].username@));
        }
    }
    assert forall|n: Seq<char>| has_user(users2, n) implies #[trigger] balance_of(users2, n)
        == account_flow(log2, n) by {
        lemma_account_flow_push(log, rec, n);
        assert(has_user(users2, n) == has_user(users, n));
    }
}

/// Setting the balance of an existing account `name` rebalances the table.
pub proof fn lemma_rebalanced(users: Seq<User>, name: Seq<char>, balance: u64)
    requires
        unique_names(users),
        has_user(users, name),
    ensures
        Ledger::rebalanced(users, with_balance(users, name, balance), name, balance),
        unique_names(with_balance(users, name, balance)),
{
    let post = with_balance(users, name, balance);
    lemma_balance_after(users, name, balance, name);
    lemma_with_balance_names(users, name, balance, name);
    assert forall|n: Seq<char>| #[trigger] has_user(post, n) == has_user(users, n) by {
        lemma_with_balance_names(users, name, balance, n);
    }
    assert forall|n: Seq<char>| n != name && has_user(users, n) implies #[trigger] balance_of(post, n)
        == balance_of(users, n) by {
        lemma_balance_after(users, name, balance, n);
    }
}

/// In every well-formed ledger, and so after any sequence of operations starting from an empty
/// or restored one, the money held in all accounts together is the sum of the deposits minus
/// the sum of the withdrawals in the log: transfers neither create nor destroy money. Each
/// account, too, holds exactly what its own records added minus what they took, and every
/// record's balances agree with the records before it.
pub proof fn lemma_conservation(l: Ledger, name: Seq<char>)
    requires
        l.wf(),
    ensures
        total(l.users@) == net_flow(l.transactions@),
        has_user(l.users@, name) ==> balance_of(l.users@, name) == account_flow(
            l.transactions@,
            name,
        ),
        forall|i: int| 0 <= i < l.transactions@.len() ==> #[trigger] snapshot_ok(l.transactions@, i),
{
}

/// A successful transfer from `from` to `to` shows once in the sender's history, as its
/// transfer_out record, and never as a transfer_in of the sender's; when the accounts differ it
/// shows once in the recipient's history, as the transfer_in record; every other account's
/// history is unchanged.
pub proof fn lemma_transfer_in_histories(
    pre: Ledger,
    post: Ledger,
    from: Seq<char>,
    to: Seq<char>,
    amount: u64,
    now: i64,
    other: Seq<char>,
)
    requires
        Ledger::transferred(pre, post, from, to, amount, now),
    ensures
        ({
            let out = post.transactions@[pre.transactions@.len() as int];
            let inc = post.transactions@[pre.transactions@.len() + 1int];
            &&& out.transaction_type == TransactionType::TransferOut
            &&& inc.transaction_type == TransactionType::TransferIn
            &&& out.amount == amount && inc.amount == amount
            &&& history(post.transactions@, from) == seq![out] + history(pre.transactions@, from)
            &&& from != to ==> history(post.transactions@, to) == seq![inc] + history(
                pre.transactions@,
                to,
            )
            &&& other != from && other != to ==> history(post.transactions@, other) == history(
                pre.transactions@,
                other,
            )
        }),
{
    let log = pre.transactions@;
    let out = post.transactions@[log.len() as int];
    let inc = post.transactions@[log.len() + 1int];
    assert(post.transactions@ =~= log.push(out).push(inc));
    lemma_transfer_history(log, out, inc, from, to, amount, other);
}

} // verus!
