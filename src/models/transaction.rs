use vstd::prelude::*;

verus! {

/// What a log record stands for.
#[derive(PartialEq, Eq, Structural, Clone, Copy, Debug)]
pub enum TransactionType {
    Deposit,
    Withdraw,
    /// The sender's side of a transfer; `recipient` names the other account.
    TransferOut,
    /// The recipient's side of a transfer; `sender` names the other account.
    TransferIn,
}

/// One immutable entry of the log, filed under the account `username`.
/// Amounts and balances are in minor currency units (cents); `timestamp` is in milliseconds.
pub struct Transaction {
    pub id: u64,
    pub username: String,
    pub transaction_type: TransactionType,
    pub amount: u64,
    pub recipient: Option<String>,
    pub sender: Option<String>,
    pub previous_balance: u64,
    pub new_balance: u64,
    pub timestamp: i64,
}

/// `o` holds a name equal to `name`.
pub open spec fn names(o: Option<String>, name: Seq<char>) -> bool {
    o matches Some(s) && s@ == name
}

/// Whether `t` shows in the history of the account `name`: records filed under it, except the
/// incoming side of a transfer it sent itself.
pub open spec fn visible_to(t: Transaction, name: Seq<char>) -> bool {
    &&& t.username@ == name
    &&& !(t.transaction_type == TransactionType::TransferIn && names(t.sender, name))
}

/// The history of `name`: the records of `log` visible to it, newest first.
pub open spec fn history(log: Seq<Transaction>, name: Seq<char>) -> Seq<Transaction>
    decreases log.len(),
{
    if log.len() == 0 {
        seq![]
    } else {
        let rest = history(log.drop_last(), name);
        if visible_to(log.last(), name) {
            seq![log.last()] + rest
        } else {
            rest
        }
    }
}

/// What `t` adds to the money held in the ledger as a whole.
pub open spec fn flow(t: Transaction) -> int {
    match t.transaction_type {
        TransactionType::Deposit => t.amount as int,
        TransactionType::Withdraw => -(t.amount as int),
        _ => 0,
    }
}

/// Deposits minus withdrawals over the whole log; transfers count for nothing.
pub open spec fn net_flow(log: Seq<Transaction>) -> int
    decreases log.len(),
{
    if log.len() == 0 {
        0
    } else {
        net_flow(log.drop_last()) + flow(log.last())
    }
}

/// Appending a record adds its flow.
pub proof fn lemma_net_flow_push(log: Seq<Transaction>, t: Transaction)
    ensures
        net_flow(log.push(t)) == net_flow(log) + flow(t),
{
    assert(log.push(t).drop_last() =~= log);
}

/// What `t` adds to the balance of the account `name`.
pub open spec fn delta(t: Transaction, name: Seq<char>) -> int {
    if t.username@ != name {
        0
    } else {
        match t.transaction_type {
            TransactionType::Deposit => t.amount as int,
            TransactionType::TransferIn => t.amount as int,
            TransactionType::Withdraw => -(t.amount as int),
            TransactionType::TransferOut => -(t.amount as int),
        }
    }
}

/// What the whole log adds to the balance of the account `name`.
pub open spec fn account_flow(log: Seq<Transaction>, name: Seq<char>) -> int
    decreases log.len(),
{
    if log.len() == 0 {
        0
    } else {
        account_flow(log.drop_last(), name) + delta(log.last(), name)
    }
}

/// Appending a record adds its delta.
pub proof fn lemma_account_flow_push(log: Seq<Transaction>, t: Transaction, name: Seq<char>)
    ensures
        account_flow(log.push(t), name) == account_flow(log, name) + delta(t, name),
{
    assert(log.push(t).drop_last() =~= log);
}

/// A log with no record filed under `name` adds nothing to its balance.
pub proof fn lemma_account_flow_absent(log: Seq<Transaction>, name: Seq<char>)
    requires
        forall|i: int| 0 <= i < log.len() ==> #[trigger] log[i].username@ != name,
    ensures
        account_flow(log, name) == 0,
    decreases log.len(),
{
    if log.len() > 0 {
        let p = log.drop_last();
        assert forall|i: int| 0 <= i < p.len() implies #[trigger] p[i].username@ != name by {
            assert(p[i] == log[i]);
        }
        lemma_account_flow_absent(p, name);
    }
}

/// Record `i` holds its owner's balance just before it, as the earlier records add up, and
/// that balance moved by the record's own delta.
pub open spec fn snapshot_ok(log: Seq<Transaction>, i: int) -> bool {
    &&& log[i].previous_balance == account_flow(log.take(i), log[i].username@)
    &&& log[i].new_balance == log[i].previous_balance + delta(log[i], log[i].username@)
}

/// Every record's balances can be audited against the records before it.
pub open spec fn snapshots_match(log: Seq<Transaction>) -> bool {
    forall|i: int| 0 <= i < log.len() ==> #[trigger] snapshot_ok(log, i)
}

/// Appending a record whose balances follow from the log keeps the snapshots matching.
pub proof fn lemma_snapshots_push(log: Seq<Transaction>, t: Transaction)
    requires
        snapshots_match(log),
        t.previous_balance == account_flow(log, t.username@),
        t.new_balance == t.previous_balance + delta(t, t.username@),
    ensures
        snapshots_match(log.push(t)),
{
    let l2 = log.push(t);
    assert forall|i: int| 0 <= i < l2.len() implies #[trigger] snapshot_ok(l2, i) by {
        if i < log.len() {
            assert(l2.take(i) =~= log.take(i));
            assert(snapshot_ok(log, i));
        } else {
            assert(l2.take(i) =~= log);
        }
    }
}

/// What a history `h` of `name` over `log` looks like: each record of `log` visible to `name`
/// appears in it, nothing else does, ids strictly fall (so no record appears twice), and
/// timestamps never rise (newest first).
pub open spec fn history_shape(log: Seq<Transaction>, name: Seq<char>, h: Seq<Transaction>) -> bool {
    &&& forall|k: int| 0 <= k < h.len() ==> visible_to(#[trigger] h[k], name) && log.contains(h[k])
    &&& forall|i: int| 0 <= i < log.len() && visible_to(#[trigger] log[i], name) ==> h.contains(log[i])
    &&& forall|j: int, k: int|
        0 <= j < k < h.len() ==> #[trigger] h[j].id > #[trigger] h[k].id && h[j].timestamp
            >= h[k].timestamp
}

/// On a well-formed log, a history has the shape `history_shape` describes.
pub proof fn lemma_history_shape(log: Seq<Transaction>, name: Seq<char>)
    requires
        log_wf(log),
    ensures
        history_shape(log, name, history(log, name)),
    decreases log.len(),
{
    if log.len() > 0 {
        let p = log.drop_last();
        let n = log.len() - 1;
        assert(log_wf(p)) by {
            assert forall|i: int| 0 <= i < p.len() implies #[trigger] p[i].id == i + 1 by {
                assert(p[i] == log[i]);
            }
            assert forall|i: int, j: int|
                0 <= i <= j < p.len() implies #[trigger] p[i].timestamp <= #[trigger] p[j].timestamp by {
                assert(p[i] == log[i] && p[j] == log[j]);
            }
        }
        lemma_history_shape(p, name);
        let hp = history(p, name);
        let h = history(log, name);
        let last = log[n];
        assert(log.last() == last);
        // every record of the shorter history lies earlier in the log than `last`
        assert forall|k: int| 0 <= k < hp.len() implies #[trigger] hp[k].id < last.id
            && hp[k].timestamp <= last.timestamp && log.contains(hp[k]) by {
            assert(p.contains(hp[k]));
            let q = choose|q: int| 0 <= q < p.len() && p[q] == hp[k];
            assert(log[q] == hp[k]);
            assert(log[q].timestamp <= log[n].timestamp);
        }
        if visible_to(last, name) {
            assert(h == seq![last] + hp);
            assert forall|k: int| 0 <= k < h.len() implies visible_to(#[trigger] h[k], name)
                && log.contains(h[k]) by {
                if k > 0 {
                    assert(h[k] == hp[k - 1]);
                } else {
                    assert(log[n] == h[0]);
                }
            }
            assert forall|i: int| 0 <= i < log.len() && visible_to(#[trigger] log[i], name) implies h.contains(
                log[i],
            ) by {
                if i < n {
                    assert(p[i] == log[i]);
                    let k = choose|k: int| 0 <= k < hp.len() && hp[k] == p[i];
                    assert(h[k + 1] == log[i]);
                } else {
                    assert(h[0] == log[i]);
                }
            }
            assert forall|j: int, k: int| 0 <= j < k < h.len() implies #[trigger] h[j].id
                > #[trigger] h[k].id && h[j].timestamp >= h[k].timestamp by {
                assert(h[k] == hp[k - 1]);
                if j > 0 {
                    assert(h[j] == hp[j - 1]);
                }
            }
        } else {
            assert(h == hp);
            assert forall|i: int| 0 <= i < log.len() && visible_to(#[trigger] log[i], name) implies h.contains(
                log[i],
            ) by {
                assert(i < n);
                assert(p[i] == log[i]);
            }
        }
    }
}

/// In any well-formed log, an account's history shows each outgoing transfer record filed
/// under it exactly once, and no incoming transfer record that names it as the sender.
pub proof fn lemma_transfer_seen_once(log: Seq<Transaction>, name: Seq<char>, i: int, j: int)
    requires
        log_wf(log),
        0 <= i < log.len(),
        0 <= j < log.len(),
        log[i].username@ == name,
        log[i].transaction_type == TransactionType::TransferOut,
        log[j].transaction_type == TransactionType::TransferIn,
        names(log[j].sender, name),
    ensures
        history(log, name).contains(log[i]),
        forall|a: int, b: int|
            0 <= a < history(log, name).len() && 0 <= b < history(log, name).len()
                && #[trigger] history(log, name)[a] == log[i] && #[trigger] history(log, name)[b]
                == log[i] ==> a == b,
        !history(log, name).contains(log[j]),
{
    lemma_history_shape(log, name);
    let h = history(log, name);
    assert(visible_to(log[i], name));
    assert forall|a: int, b: int|
        0 <= a < h.len() && 0 <= b < h.len() && #[trigger] h[a] == log[i] && #[trigger] h[b] == log[i]
        implies a == b by {
        if a < b {
            assert(h[a].id > h[b].id);
        } else if b < a {
            assert(h[b].id > h[a].id);
        }
    }
    if h.contains(log[j]) {
        let k = choose|k: int| 0 <= k < h.len() && h[k] == log[j];
        assert(visible_to(h[k], name));
    }
}

/// The log's own shape: record `i` has id `i + 1`, and timestamps never decrease.
pub open spec fn log_wf(log: Seq<Transaction>) -> bool {
    &&& forall|i: int| 0 <= i < log.len() ==> #[trigger] log[i].id == i + 1
    &&& forall|i: int, j: int|
        0 <= i <= j < log.len() ==> #[trigger] log[i].timestamp <= #[trigger] log[j].timestamp
}

/// The id that the next record appended to `log` receives.
pub open spec fn next_id(log: Seq<Transaction>) -> int {
    log.len() + 1int
}

/// The timestamp that a record made at `now` receives when appended to `log`: never earlier
/// than the last record's.
pub open spec fn stamp(log: Seq<Transaction>, now: i64) -> i64 {
    if log.len() > 0 && log.last().timestamp > now {
        log.last().timestamp
    } else {
        now
    }
}

/// `t` as it is stored when appended to `log`: the next id, and a timestamp no earlier than
/// the log's last.
pub open spec fn stored(log: Seq<Transaction>, t: Transaction) -> Transaction {
    Transaction { id: next_id(log) as u64, timestamp: stamp(log, t.timestamp), ..t }
}

/// The records that one transfer of `amount` from `from` to `to` writes, given the two
/// balances each side had just before its own record.
pub open spec fn transfer_pair(
    out: Transaction,
    inc: Transaction,
    from: Seq<char>,
    to: Seq<char>,
    amount: u64,
) -> bool {
    &&& out.username@ == from
    &&& out.transaction_type == TransactionType::TransferOut
    &&& out.amount == amount
    &&& names(out.recipient, to)
    &&& out.sender is None
    &&& inc.username@ == to
    &&& inc.transaction_type == TransactionType::TransferIn
    &&& inc.amount == amount
    &&& inc.recipient is None
    &&& names(inc.sender, from)
}

/// A transfer is recorded once on each side: the sender's history gains exactly the outgoing
/// record; when the accounts differ the recipient's history gains exactly the incoming one; and
/// the history of every other account is unchanged.
pub proof fn lemma_transfer_history(
    log: Seq<Transaction>,
    out: Transaction,
    inc: Transaction,
    from: Seq<char>,
    to: Seq<char>,
    amount: u64,
    other: Seq<char>,
)
    requires
        transfer_pair(out, inc, from, to, amount),
    ensures
        history(log.push(out).push(inc), from) == seq![out] + history(log, from),
        from != to ==> history(log.push(out).push(inc), to) == seq![inc] + history(log, to),
        other != from && other != to ==> history(log.push(out).push(inc), other) == history(
            log,
            other,
        ),
{
    let l1 = log.push(out);
    let l2 = l1.push(inc);
    assert(l2.drop_last() =~= l1);
    assert(l1.drop_last() =~= log);
    assert(l2.last() == inc);
    assert(l1.last() == out);
    assert(!visible_to(inc, from));
    assert(visible_to(out, from));
    assert(history(l2, from) == history(l1, from));
    assert(history(l1, from) == seq![out] + history(log, from));
    if from != to {
        assert(!visible_to(out, to));
        assert(visible_to(inc, to));
        assert(history(l2, to) == seq![inc] + history(l1, to));
        assert(history(l1, to) == history(log, to));
    }
    if other != from && other != to {
        assert(!visible_to(out, other));
        assert(!visible_to(inc, other));
        assert(history(l2, other) == history(l1, other));
        assert(history(l1, other) == history(log, other));
    }
}

/// A copy of an optional name.
pub fn copy_name(o: &Option<String>) -> (r: Option<String>)
    ensures
        r == *o,
{
    match o {
        Some(s) => Some(s.clone()),
        None => None,
    }
}

impl Transaction {
    /// A record that is not yet in the log; `create` gives it its id.
    pub fn new(
        username: String,
        transaction_type: TransactionType,
        amount: u64,
        recipient: Option<String>,
        sender: Option<String>,
        previous_balance: u64,
        new_balance: u64,
        timestamp: i64,
    ) -> (r: Transaction)
        ensures
            r == (Transaction {
                id: 0,
                username,
                transaction_type,
                amount,
                recipient,
                sender,
                previous_balance,
                new_balance,
                timestamp,
            }),
    {
        Transaction {
            id: 0,
            username,
            transaction_type,
            amount,
            recipient,
            sender,
            previous_balance,
            new_balance,
            timestamp,
        }
    }

    /// A field-by-field copy.
    pub fn copy(&self) -> (r: Transaction)
        ensures
            r == *self,
    {
        Transaction {
            id: self.id,
            username: self.username.clone(),
            transaction_type: self.transaction_type,
            amount: self.amount,
            recipient: copy_name(&self.recipient),
            sender: copy_name(&self.sender),
            previous_balance: self.previous_balance,
            new_balance: self.new_balance,
            timestamp: self.timestamp,
        }
    }

    /// Appends `transaction` to the log under the next id, with its timestamp raised to the
    /// last record's if it is earlier.
    pub fn create(log: &mut Vec<Transaction>, transaction: &Transaction)
        requires
            log_wf(old(log)@),
            old(log).len() < usize::MAX,
        ensures
            final(log)@ == old(log)@.push(stored(old(log)@, *transaction)),
            log_wf(final(log)@),
    {
        let n = log.len();
        let mut t = transaction.copy();
        t.id = n as u64 + 1;
        if n > 0 && log[n - 1].timestamp > t.timestamp {
            t.timestamp = log[n - 1].timestamp;
        }
        log.push(t);
        proof {
            let s = final(log)@;
            assert(s[n as int] == stored(old(log)@, *transaction));
            assert forall|i: int, j: int|
                0 <= i <= j < s.len() implies #[trigger] s[i].timestamp <= #[trigger] s[j].timestamp by {
                if j == n && i < n {
                    assert(old(log)@[i].timestamp <= old(log)@[n - 1].timestamp);
                }
            }
            assert forall|i: int| 0 <= i < s.len() implies #[trigger] s[i].id == i + 1 by {
                if i < n {
                    assert(s[i] == old(log)@[i]);
                }
            }
        }
    }

    /// The history of `username`, newest first: every record filed under it, but for the
    /// incoming side of a transfer that it sent to itself. All such records are returned, with
    /// no cap on their number, each once.
    pub fn get_user_transactions(log: &Vec<Transaction>, username: &String) -> (r: Vec<Transaction>)
        requires
            log_wf(log@),
        ensures
            r@ == history(log@, username@),
            history_shape(log@, username@, r@),
    {
        let mut r: Vec<Transaction> = Vec::new();
        let mut i: usize = log.len();
        proof {
            assert(log@.take(i as int) =~= log@);
        }
        while i > 0
            invariant
                i <= log.len(),
                r@ + history(log@.take(i as int), username@) == history(log@, username@),
            decreases i,
        {
            let ghost pre = r@;
            let t = &log[i - 1];
            proof {
                let p = log@.take(i as int);
                assert(p.drop_last() =~= log@.take(i - 1));
                assert(p.last() == log@[i - 1]);
            }
            let shown = t.username == *username
                && !(t.transaction_type == TransactionType::TransferIn
                    && Transaction::names_sender(t, username));
            if shown {
                r.push(t.copy());
                proof {
                    assert(pre + seq![log@[i - 1]] + history(log@.take(i - 1), username@)
                        =~= pre + (seq![log@[i - 1]] + history(log@.take(i - 1), username@)));
                }
            }
            i = i - 1;
        }
        proof {
            assert(log@.take(0) =~= Seq::<Transaction>::empty());
            assert(r@ + Seq::<Transaction>::empty() =~= r@);
            lemma_history_shape(log@, username@);
        }
        r
    }

    /// Whether the record names `username` as its sender.
    pub fn names_sender(&self, username: &String) -> (r: bool)
        ensures
            r == names(self.sender, username@),
    {
        match &self.sender {
            Some(s) => *s == *username,
            None => false,
        }
    }
}

} // verus!
