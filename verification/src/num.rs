//! Verified decimal rendering and parsing of integers.
//!
//! `dec_u64` is the mathematical decimal form of a number; the executable
//! renderer and parser are proved against it, including the round trip.

use vstd::arithmetic::div_mod::lemma_fundamental_div_mod;
use vstd::prelude::*;

use crate::text::push_char;

verus! {

pub open spec fn is_digit(c: char) -> bool {
    '0' as int <= c as int <= '9' as int
}

pub open spec fn digit_val(c: char) -> nat {
    (c as int - '0' as int) as nat
}

pub open spec fn char_of_digit(d: nat) -> char {
    if d == 0 {
        '0'
    } else if d == 1 {
        '1'
    } else if d == 2 {
        '2'
    } else if d == 3 {
        '3'
    } else if d == 4 {
        '4'
    } else if d == 5 {
        '5'
    } else if d == 6 {
        '6'
    } else if d == 7 {
        '7'
    } else if d == 8 {
        '8'
    } else {
        '9'
    }
}

/// Decimal digits of `n`, most significant first, no sign, no leading zero
/// (except for `n == 0`, which is the single digit `0`).
pub open spec fn dec_u64(n: nat) -> Seq<char>
    decreases n,
{
    if n < 10 {
        seq![char_of_digit(n)]
    } else {
        dec_u64(n / 10).push(char_of_digit(n % 10))
    }
}

/// Decimal form of a signed number: a leading `-` for negative values.
pub open spec fn dec_i64(v: int) -> Seq<char> {
    if v >= 0 {
        dec_u64(v as nat)
    } else {
        seq!['-'] + dec_u64((-v) as nat)
    }
}

pub open spec fn all_digits(s: Seq<char>) -> bool {
    forall|i: int| 0 <= i < s.len() ==> is_digit(#[trigger] s[i])
}

/// The number denoted by a sequence of decimal digits, most significant first.
pub open spec fn num_of_digits(s: Seq<char>) -> nat
    decreases s.len(),
{
    if s.len() == 0 {
        0
    } else {
        num_of_digits(s.drop_last()) * 10 + digit_val(s.last())
    }
}

pub proof fn lemma_char_of_digit_val(d: nat)
    requires
        d < 10,
    ensures
        is_digit(char_of_digit(d)),
        digit_val(char_of_digit(d)) == d,
{
}

pub open spec fn pow10(k: nat) -> nat
    decreases k,
{
    if k == 0 {
        1
    } else {
        10 * pow10((k - 1) as nat)
    }
}

/// A number below `10^k` has at most `k` decimal digits.
pub proof fn lemma_dec_u64_len(n: nat, k: nat)
    requires
        1 <= k,
        n < pow10(k),
    ensures
        dec_u64(n).len() <= k,
    decreases k,
{
    if n >= 10 {
        assert(pow10(k) == 10 * pow10((k - 1) as nat));
        lemma_fundamental_div_mod(n as int, 10);
        assert(n / 10 < pow10((k - 1) as nat));
        lemma_dec_u64_len(n / 10, (k - 1) as nat);
    }
}

/// A signed value strictly within `10^k` renders to at most `k + 1`
/// characters, the sign included.
pub proof fn lemma_dec_i64_len(v: int, k: nat)
    requires
        1 <= k,
        -pow10(k) < v < pow10(k),
    ensures
        dec_i64(v).len() <= k + 1,
{
    if v >= 0 {
        lemma_dec_u64_len(v as nat, k);
    } else {
        lemma_dec_u64_len((-v) as nat, k);
    }
}

/// Every digit string of `dec_u64` is made of digits and denotes the number
/// it was rendered from: the decimal round trip.
pub proof fn lemma_dec_u64_round_trip(n: nat)
    ensures
        dec_u64(n).len() >= 1,
        all_digits(dec_u64(n)),
        num_of_digits(dec_u64(n)) == n,
    decreases n,
{
    if n < 10 {
        lemma_char_of_digit_val(n);
        assert(dec_u64(n) == seq![char_of_digit(n)]);
        assert(dec_u64(n).drop_last() =~= Seq::<char>::empty());
        assert(dec_u64(n).last() == char_of_digit(n));
        assert(num_of_digits(dec_u64(n)) == num_of_digits(Seq::<char>::empty()) * 10
            + digit_val(char_of_digit(n)));
    } else {
        lemma_dec_u64_round_trip(n / 10);
        lemma_char_of_digit_val(n % 10);
        lemma_fundamental_div_mod(n as int, 10);
        let s = dec_u64(n);
        assert(s == dec_u64(n / 10).push(char_of_digit(n % 10)));
        assert(s.drop_last() =~= dec_u64(n / 10));
        assert(s.last() == char_of_digit(n % 10));
        assert(num_of_digits(s) == num_of_digits(s.drop_last()) * 10 + digit_val(s.last()));
        assert(num_of_digits(s) == (n / 10) * 10 + n % 10);
        assert forall|i: int| 0 <= i < s.len() implies is_digit(#[trigger] s[i]) by {
            if i < s.len() - 1 {
                assert(s[i] == dec_u64(n / 10)[i]);
            }
        }
    }
}

pub fn digit_char(d: u64) -> (c: char)
    requires
        d < 10,
    ensures
        c == char_of_digit(d as nat),
{
    if d == 0 {
        '0'
    } else if d == 1 {
        '1'
    } else if d == 2 {
        '2'
    } else if d == 3 {
        '3'
    } else if d == 4 {
        '4'
    } else if d == 5 {
        '5'
    } else if d == 6 {
        '6'
    } else if d == 7 {
        '7'
    } else if d == 8 {
        '8'
    } else {
        '9'
    }
}

fn push_dec_u64(s: &mut String, n: u64)
    ensures
        final(s)@ == old(s)@ + dec_u64(n as nat),
    decreases n,
{
    if n < 10 {
        push_char(s, digit_char(n));
        assert(s@ =~= old(s)@ + dec_u64(n as nat));
    } else {
        push_dec_u64(s, n / 10);
        push_char(s, digit_char(n % 10));
        assert(s@ =~= old(s)@ + dec_u64(n as nat));
    }
}

/// Renders `n` in decimal, exactly `dec_u64(n)`.
pub fn u64_to_string(n: u64) -> (s: String)
    ensures
        s@ == dec_u64(n as nat),
{
    let mut s = String::new();
    push_dec_u64(&mut s, n);
    assert(s@ =~= dec_u64(n as nat));
    s
}

/// Renders `v` in decimal with a `-` sign for negative values, exactly
/// `dec_i64(v)`.
pub fn i64_to_string(v: i64) -> (s: String)
    ensures
        s@ == dec_i64(v as int),
{
    let mut s = String::new();
    if v < 0 {
        push_char(&mut s, '-');
        let m: u64 = (-(v as i128)) as u64;
        push_dec_u64(&mut s, m);
        assert(s@ =~= dec_i64(v as int));
    } else {
        push_dec_u64(&mut s, v as u64);
        assert(s@ =~= dec_i64(v as int));
    }
    s
}

proof fn lemma_num_prefix_monotone(s: Seq<char>, i: int, j: int)
    requires
        0 <= i <= j <= s.len(),
    ensures
        num_of_digits(s.subrange(0, i)) <= num_of_digits(s.subrange(0, j)),
    decreases j - i,
{
    if i < j {
        lemma_num_prefix_monotone(s, i, j - 1);
        assert(s.subrange(0, j).drop_last() =~= s.subrange(0, j - 1));
        assert(num_of_digits(s.subrange(0, j)) == num_of_digits(s.subrange(0, j - 1)) * 10
            + digit_val(s.subrange(0, j).last()));
    }
}

/// Parses a decimal digit string. Returns the denoted value exactly when the
/// text is nonempty, all digits, and the value fits in a `u64`.
pub fn parse_u64(s: &str) -> (r: Option<u64>)
    ensures
        r is Some <==> s@.len() > 0 && all_digits(s@) && num_of_digits(s@) <= u64::MAX,
        r matches Some(v) ==> v == num_of_digits(s@),
{
    let n = s.unicode_len();
    if n == 0 {
        return None;
    }
    let mut acc: u64 = 0;
    let mut i: usize = 0;
    while i < n
        invariant
            0 <= i <= n,
            n == s@.len(),
            forall|k: int| 0 <= k < i ==> is_digit(#[trigger] s@[k]),
            acc == num_of_digits(s@.subrange(0, i as int)),
        decreases n - i,
    {
        let c = s.get_char(i);
        let u = c as u32;
        if u < 48 || u > 57 {
            assert(!is_digit(s@[i as int]));
            return None;
        }
        let d = (u - 48) as u64;
        assert(d == digit_val(s@[i as int]));
        let shifted = match acc.checked_mul(10) {
            Some(x) => x,
            None => {
                proof {
                    overflow_means_too_big(s@, i as int, acc as nat * 10 + d as nat);
                }
                return None;
            },
        };
        let next = match shifted.checked_add(d) {
            Some(x) => x,
            None => {
                proof {
                    overflow_means_too_big(s@, i as int, acc as nat * 10 + d as nat);
                }
                return None;
            },
        };
        proof {
            assert(s@.subrange(0, i + 1).drop_last() =~= s@.subrange(0, i as int));
        }
        acc = next;
        i = i + 1;
    }
    assert(s@.subrange(0, n as int) =~= s@);
    Some(acc)
}

proof fn overflow_means_too_big(s: Seq<char>, i: int, v: nat)
    requires
        0 <= i < s.len(),
        v == num_of_digits(s.subrange(0, i)) * 10 + digit_val(s[i]),
        v > u64::MAX,
    ensures
        num_of_digits(s) > u64::MAX,
{
    assert(s.subrange(0, i + 1).drop_last() =~= s.subrange(0, i));
    assert(s.subrange(0, i + 1).last() == s[i]);
    assert(num_of_digits(s.subrange(0, i + 1)) == v);
    lemma_num_prefix_monotone(s, i + 1, s.len() as int);
    assert(s.subrange(0, s.len() as int) =~= s);
}

} // verus!
