use vstd::prelude::*;
use crate::text::{decimal, digit_char, push_char, push_decimal};

verus! {

pub open spec fn is_digit(c: char) -> bool {
    '0' <= c && c <= '9'
}

pub open spec fn digit_value(c: char) -> nat {
    (c as u32 - '0' as u32) as nat
}

pub open spec fn all_digits(s: Seq<char>) -> bool {
    forall|i: int| 0 <= i < s.len() ==> is_digit(#[trigger] s[i])
}

/// The number that the decimal digits `s` spell.
pub open spec fn digits_value(s: Seq<char>) -> nat
    decreases s.len(),
{
    if s.len() == 0 {
        0
    } else {
        digits_value(s.drop_last()) * 10 + digit_value(s.last())
    }
}

/// The amount in cents that `t` spells: whole units, optionally followed by a point and one or
/// two digits of cents (`12`, `12.5`, `12.05`).
pub open spec fn cents_of(t: Seq<char>) -> Option<nat> {
    let n = t.len();
    if n > 0 && all_digits(t) {
        Some(digits_value(t) * 100)
    } else if n >= 3 && t[n - 2] == '.' && all_digits(t.take(n - 2)) && is_digit(t[n - 1]) {
        Some(digits_value(t.take(n - 2)) * 100 + digit_value(t[n - 1]) * 10)
    } else if n >= 4 && t[n - 3] == '.' && all_digits(t.take(n - 3)) && all_digits(t.skip(n - 2)) {
        Some(digits_value(t.take(n - 3)) * 100 + digits_value(t.skip(n - 2)))
    } else {
        None
    }
}

/// What `parse_amount` returns: the amount that `t` spells, where it fits a `u64`.
pub open spec fn amount_value(t: Seq<char>) -> Option<u64> {
    match cents_of(t) {
        Some(v) => if v <= u64::MAX {
            Some(v as u64)
        } else {
            None
        },
        None => None,
    }
}

/// A prefix of digits spells no more than the whole.
pub proof fn lemma_digits_prefix(s: Seq<char>, k: int)
    requires
        0 <= k <= s.len(),
    ensures
        digits_value(s.take(k)) <= digits_value(s),
    decreases s.len(),
{
    if k < s.len() {
        lemma_digits_prefix(s.drop_last(), k);
        assert(s.drop_last().take(k) =~= s.take(k));
    } else {
        assert(s.take(k) =~= s);
    }
}

/// The value of one or two digits.
pub proof fn lemma_short_digits(f: Seq<char>)
    requires
        1 <= f.len() <= 2,
    ensures
        f.len() == 1 ==> digits_value(f) == digit_value(f[0]),
        f.len() == 2 ==> digits_value(f) == digit_value(f[0]) * 10 + digit_value(f[1]),
        all_digits(f) ==> digits_value(f) <= 99,
{
    let g = f.drop_last();
    if f.len() == 2 {
        assert(g.drop_last() =~= Seq::<char>::empty());
        assert(g.last() == f[0]);
        assert(digits_value(g.drop_last()) == 0);
        assert(digits_value(g) == digit_value(f[0]));
        if all_digits(f) {
            assert(is_digit(f[0]) && is_digit(f[1]));
        }
    } else {
        assert(g =~= Seq::<char>::empty());
        assert(digits_value(g) == 0);
        if all_digits(f) {
            assert(is_digit(f[0]));
        }
    }
}

/// The value of the digits `cs[lo..hi]`, if they are all digits and the value fits a `u64`.
fn digits_at(cs: &Vec<char>, lo: usize, hi: usize) -> (r: Option<u64>)
    requires
        lo <= hi <= cs.len(),
    ensures
        ({
            let t = cs@.subrange(lo as int, hi as int);
            r == if all_digits(t) && digits_value(t) <= u64::MAX {
                Some(digits_value(t) as u64)
            } else {
                None::<u64>
            }
        }),
{
    let ghost t = cs@.subrange(lo as int, hi as int);
    let mut v: u64 = 0;
    let mut k: usize = lo;
    while k < hi
        invariant
            lo <= k <= hi <= cs.len(),
            t == cs@.subrange(lo as int, hi as int),
            all_digits(t.take(k - lo)),
            v == digits_value(t.take(k - lo)),
        decreases hi - k,
    {
        let c = cs[k];
        if !('0' <= c && c <= '9') {
            assert(!is_digit(t[k - lo]));
            return None;
        }
        let d: u64 = (c as u32 - '0' as u32) as u64;
        let ghost p = t.take(k - lo + 1);
        proof {
            assert(p.drop_last() =~= t.take(k - lo));
            assert(p.last() == c);
        }
        if v > (u64::MAX - d) / 10 {
            proof {
                if all_digits(t) {
                    lemma_digits_prefix(t, k - lo + 1);
                }
            }
            return None;
        }
        v = v * 10 + d;
        k = k + 1;
    }
    proof {
        assert(t.take(hi - lo) =~= t);
    }
    Some(v)
}

/// The characters of `s`.
fn chars_of(s: &str) -> (r: Vec<char>)
    ensures
        r@ == s@,
{
    let n = s.unicode_len();
    let mut r: Vec<char> = Vec::new();
    let mut i: usize = 0;
    while i < n
        invariant
            n == s@.len(),
            i <= n,
            r@ == s@.take(i as int),
        decreases n - i,
    {
        r.push(s.get_char(i));
        proof {
            assert(s@.take(i + 1) =~= s@.take(i as int).push(s@[i as int]));
        }
        i = i + 1;
    }
    proof {
        assert(s@.take(n as int) =~= s@);
    }
    r
}

/// Reads an amount in cents from text such as `12`, `12.5` or `12.05`.
pub fn parse_amount(s: &str) -> (r: Option<u64>)
    ensures
        r == amount_value(s@),
{
    let cs = chars_of(s);
    let n = cs.len();
    let ghost t = s@;
    if n >= 3 && cs[n - 2] == '.' {
        proof {
            assert(!is_digit(t[n - 2]));
            assert(t.skip(n - 2)[0] == t[n - 2]);
            assert(!all_digits(t.skip(n - 2)));
            assert(cs@.subrange(0, n - 2) =~= t.take(n - 2));
            assert(cs@.subrange(n - 1, n as int) =~= t.skip(n - 1));
        }
        match digits_at(&cs, 0, n - 2) {
            Some(whole) => match digits_at(&cs, n - 1, n) {
                Some(tenths) => {
                    proof {
                        let f = t.skip(n - 1);
                        lemma_short_digits(f);
                        assert(is_digit(f[0]));
                        assert(f[0] == t[n - 1]);
                    }
                    let v: u128 = whole as u128 * 100 + tenths as u128 * 10;
                    if v <= u64::MAX as u128 {
                        Some(v as u64)
                    } else {
                        None
                    }
                },
                None => {
                    proof {
                        let f = t.skip(n - 1);
                        lemma_short_digits(f);
                        assert(f[0] == t[n - 1]);
                        if is_digit(t[n - 1]) {
                            assert(all_digits(f));
                        }
                    }
                    None
                },
            },
            None => {
                proof {
                    if all_digits(t.take(n - 2)) {
                        assert(digits_value(t.take(n - 2)) * 100 > u64::MAX);
                    }
                }
                None
            },
        }
    } else if n >= 4 && cs[n - 3] == '.' {
        proof {
            assert(!all_digits(t));
            assert(cs@.subrange(0, n - 3) =~= t.take(n - 3));
            assert(cs@.subrange(n - 2, n as int) =~= t.skip(n - 2));
        }
        match digits_at(&cs, 0, n - 3) {
            Some(whole) => match digits_at(&cs, n - 2, n) {
                Some(cents) => {
                    proof {
                        let f = t.skip(n - 2);
                        lemma_short_digits(f);
                    }
                    let v: u128 = whole as u128 * 100 + cents as u128;
                    if v <= u64::MAX as u128 {
                        Some(v as u64)
                    } else {
                        None
                    }
                },
                None => {
                    proof {
                        let f = t.skip(n - 2);
                        lemma_short_digits(f);
                    }
                    None
                },
            },
            None => {
                proof {
                    if all_digits(t.take(n - 3)) {
                        assert(digits_value(t.take(n - 3)) * 100 > u64::MAX);
                    }
                }
                None
            },
        }
    } else if n > 0 {
        proof {
            assert(cs@.subrange(0, n as int) =~= t);
            if n >= 3 {
                assert(!is_digit(t[n - 2]) ==> !all_digits(t));
            }
        }
        match digits_at(&cs, 0, n) {
            Some(whole) => {
                let v: u128 = whole as u128 * 100;
                if v <= u64::MAX as u128 {
                    Some(v as u64)
                } else {
                    None
                }
            },
            None => None,
        }
    } else {
        None
    }
}

/// The text of an amount of cents: a dollar sign, the whole units, a point and two digits.
pub open spec fn money(cents: nat) -> Seq<char> {
    seq!['$'] + decimal(cents / 100) + seq!['.', digit_char((cents % 100) / 10), digit_char(cents % 10)]
}

/// Appends the text of an amount of cents, such as `$12.05`.
pub fn push_money(s: &mut String, cents: u64)
    ensures
        final(s)@ == old(s)@ + money(cents as nat),
{
    push_char(s, '$');
    push_decimal(s, cents / 100);
    push_char(s, '.');
    let tens: u8 = ((cents % 100) / 10) as u8;
    let ones: u8 = (cents % 10) as u8;
    push_char(s, (tens + 48) as char);
    push_char(s, (ones + 48) as char);
    proof {
        assert(final(s)@ =~= old(s)@ + money(cents as nat));
    }
}

/// The text of an amount of cents, such as `$12.05`.
pub fn money_text(cents: u64) -> (r: String)
    ensures
        r@ == money(cents as nat),
{
    let mut r = String::new();
    push_money(&mut r, cents);
    proof {
        assert(r@ =~= money(cents as nat));
    }
    r
}

} // verus!
