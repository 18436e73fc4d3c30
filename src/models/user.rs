use vstd::prelude::*;

verus! {

/// An account: a unique name and a balance in minor currency units (cents).
pub struct User {
    pub username: String,
    pub balance: u64,
}

/// Some account in `users` carries the name `name`.
pub open spec fn has_user(users: Seq<User>, name: Seq<char>) -> bool {
    exists|i: int| 0 <= i < users.len() && #[trigger] users[i].username@ == name
}

/// No two accounts share a name.
pub open spec fn unique_names(users: Seq<User>) -> bool {
    forall|i: int, j: int|
        0 <= i < users.len() && 0 <= j < users.len() && #[trigger] users[i].username@
            == #[trigger] users[j].username@ ==> i == j
}

/// The balance of the account named `name` (meaningful when it exists).
pub open spec fn balance_of(users: Seq<User>, name: Seq<char>) -> nat {
    let i = choose|i: int| 0 <= i < users.len() && #[trigger] users[i].username@ == name;
    users[i].balance as nat
}

/// `users` with the balance of every account named `name` set to `balance`.
pub open spec fn with_balance(users: Seq<User>, name: Seq<char>, balance: u64) -> Seq<User> {
    users.map_values(
        |u: User|
            if u.username@ == name {
                User { username: u.username, balance }
            } else {
                u
            },
    )
}

/// The sum of all balances.
pub open spec fn total(users: Seq<User>) -> int
    decreases users.len(),
{
    if users.len() == 0 {
        0
    } else {
        total(users.drop_last()) + users.last().balance
    }
}

/// Replacing one account changes the sum by the difference of the two balances.
pub proof fn lemma_total_update(users: Seq<User>, i: int, u: User)
    requires
        0 <= i < users.len(),
    ensures
        total(users.update(i, u)) == total(users) - users[i].balance + u.balance,
    decreases users.len(),
{
    let s = users.update(i, u);
    if i < users.len() - 1 {
        lemma_total_update(users.drop_last(), i, u);
        assert(s.drop_last() =~= users.drop_last().update(i, u));
    } else {
        assert(s.drop_last() =~= users.drop_last());
    }
}

/// With unique names, setting the balance of the account at `i` by name is an update of index `i`,
/// and `balance_of` reads index `i`.
pub proof fn lemma_name_at(users: Seq<User>, i: int, balance: u64)
    requires
        unique_names(users),
        0 <= i < users.len(),
    ensures
        has_user(users, users[i].username@),
        balance_of(users, users[i].username@) == users[i].balance,
        with_balance(users, users[i].username@, balance) =~= users.update(
            i,
            User { username: users[i].username, balance },
        ),
        total(with_balance(users, users[i].username@, balance)) == total(users)
            - users[i].balance + balance,
{
    let name = users[i].username@;
    assert(users[i].username@ == name);
    let j = choose|j: int| 0 <= j < users.len() && #[trigger] users[j].username@ == name;
    assert(j == i);
    assert(with_balance(users, name, balance) =~= users.update(
        i,
        User { username: users[i].username, balance },
    ));
    lemma_total_update(users, i, User { username: users[i].username, balance });
}

/// Setting a balance keeps every account's name.
pub proof fn lemma_with_balance_names(users: Seq<User>, name: Seq<char>, balance: u64, other: Seq<char>)
    ensures
        has_user(with_balance(users, name, balance), other) == has_user(users, other),
{
    let s = with_balance(users, name, balance);
    if has_user(users, other) {
        let i = choose|i: int| 0 <= i < users.len() && #[trigger] users[i].username@ == other;
        assert(s[i].username@ == other);
    }
    if has_user(s, other) {
        let i = choose|i: int| 0 <= i < s.len() && #[trigger] s[i].username@ == other;
        assert(users[i].username@ == other);
    }
}


/// After setting the balance of `name` to `balance`, an account reads `balance` if it is
/// `name` and its old balance otherwise.
pub proof fn lemma_balance_after(users: Seq<User>, name: Seq<char>, balance: u64, other: Seq<char>)
    requires
        unique_names(users),
        has_user(users, other),
    ensures
        balance_of(with_balance(users, name, balance), other) == if other == name {
            balance as nat
        } else {
            balance_of(users, other)
        },
        unique_names(with_balance(users, name, balance)),
{
    let s = with_balance(users, name, balance);
    let i = choose|i: int| 0 <= i < users.len() && #[trigger] users[i].username@ == other;
    assert(s[i].username@ == other);
    assert forall|a: int, b: int|
        0 <= a < s.len() && 0 <= b < s.len() && #[trigger] s[a].username@ == #[trigger] s[b].username@
        implies a == b by {
        assert(s[a].username@ == users[a].username@);
        assert(s[b].username@ == users[b].username@);
    }
    lemma_name_at(users, i, 0);
    lemma_name_at(s, i, 0);
}

impl User {
    pub fn new(username: String, balance: u64) -> (r: User)
        ensures
            r.username == username,
            r.balance == balance,
    {
        User { username, balance }
    }

    /// The position of the account named `username`, if any.
    pub fn find(users: &Vec<User>, username: &String) -> (r: Option<usize>)
        ensures
            r is None <==> !has_user(users@, username@),
            r matches Some(i) ==> i < users.len() && users@[i as int].username@ == username@,
    {
        let mut i: usize = 0;
        while i < users.len()
            invariant
                i <= users.len(),
                forall|j: int| 0 <= j < i ==> #[trigger] users@[j].username@ != username@,
            decreases users.len() - i,
        {
            if users[i].username == *username {
                return Some(i);
            }
            i = i + 1;
        }
        None
    }
    /// Opens an account with a zero balance, unless the name is taken.
    pub fn create(users: &mut Vec<User>, username: &String) -> (created: bool)
        requires
            unique_names(old(users)@),
        ensures
            created == !has_user(old(users)@, username@),
            created ==> final(users)@ == old(users)@.push(User { username: *username, balance: 0 }),
            !created ==> final(users)@ == old(users)@,
            unique_names(final(users)@),
    {
        match User::find(users, username) {
            Some(_) => false,
            None => {
                users.push(User { username: username.clone(), balance: 0 });
                proof {
                    let s = final(users)@;
                    assert forall|i: int, j: int|
                        0 <= i < s.len() && 0 <= j < s.len() && #[trigger] s[i].username@
                            == #[trigger] s[j].username@ implies i == j by {
                        if i < s.len() - 1 {
                            assert(s[i] == old(users)@[i]);
                        }
                        if j < s.len() - 1 {
                            assert(s[j] == old(users)@[j]);
                        }
                    }
                }
                true
            },
        }
    }

    /// The account named `username`, if any.
    pub fn get(users: &Vec<User>, username: &String) -> (r: Option<User>)
        requires
            unique_names(users@),
        ensures
            r is None <==> !has_user(users@, username@),
            r matches Some(u) ==> u.username@ == username@ && u.balance == balance_of(
                users@,
                username@,
            ),
    {
        match User::find(users, username) {
            Some(i) => {
                proof {
                    lemma_name_at(users@, i as int, 0);
                }
                Some(User { username: users[i].username.clone(), balance: users[i].balance })
            },
            None => None,
        }
    }

    /// Overwrites the balance of the account named `username`; no account changes if none has it.
    pub fn update_balance(users: &mut Vec<User>, username: &String, new_balance: u64)
        requires
            unique_names(old(users)@),
        ensures
            final(users)@ == with_balance(old(users)@, username@, new_balance),
            unique_names(final(users)@),
    {
        match User::find(users, username) {
            Some(i) => {
                proof {
                    lemma_name_at(old(users)@, i as int, new_balance);
                }
                let name = users[i].username.clone();
                users.set(i, User { username: name, balance: new_balance });
                proof {
                    let s = final(users)@;
                    assert forall|a: int, b: int|
                        0 <= a < s.len() && 0 <= b < s.len() && #[trigger] s[a].username@
                            == #[trigger] s[b].username@ implies a == b by {
                        assert(s[a].username@ == old(users)@[a].username@);
                        assert(s[b].username@ == old(users)@[b].username@);
                    }
                }
            },
            None => {
                assert(with_balance(old(users)@, username@, new_balance) =~= old(users)@);
            },
        }
    }
}

} // verus!
