//! Decimal text for integers: reading a number out of a string the way
//! `str::parse` does for `usize` and `i32`, and writing one the way
//! `to_string` does.

use vstd::prelude::*;

verus! {

/// An ASCII decimal digit.
pub open spec fn is_digit(c: char) -> bool {
    '0' <= c && c <= '9'
}

/// The value of a decimal digit.
pub open spec fn digit_value(c: char) -> nat {
    ((c as int) - ('0' as int)) as nat
}

/// The character of a digit value below ten.
pub open spec fn digit_char(d: nat) -> char {
    ((d as int) + ('0' as int)) as char
}

/// Every character of `s` is a decimal digit.
pub open spec fn all_digits(s: Seq<char>) -> bool {
    forall|i: int| 0 <= i < s.len() ==> is_digit(#[trigger] s[i])
}

/// The number that a string of decimal digits spells, most significant first.
pub open spec fn digits_value(s: Seq<char>) -> nat
    decreases s.len(),
{
    if s.len() == 0 {
        0
    } else {
        digits_value(s.drop_last()) * 10 + digit_value(s.last())
    }
}

/// What follows an optional leading `+`.
pub open spec fn unsigned_body(s: Seq<char>) -> Seq<char> {
    if s.len() > 0 && s[0] == '+' {
        s.drop_first()
    } else {
        s
    }
}

/// A non-empty run of decimal digits whose value is at most `limit`.
pub open spec fn digits_within(s: Seq<char>, limit: int) -> bool {
    s.len() > 0 && all_digits(s) && digits_value(s) <= limit
}

/// What `s.parse::<usize>()` gives: an optional `+`, then one or more ASCII
/// digits whose value fits in a `usize`; anything else is an error.
pub open spec fn spec_parse_usize(s: Seq<char>) -> Option<usize> {
    let body = unsigned_body(s);
    if digits_within(body, usize::MAX as int) {
        Some(digits_value(body) as usize)
    } else {
        None
    }
}

/// What `s.parse::<i32>()` gives: an optional `+` or `-`, then one or more
/// ASCII digits whose signed value fits in an `i32`; anything else is an error.
pub open spec fn spec_parse_i32(s: Seq<char>) -> Option<i32> {
    if s.len() > 0 && s[0] == '-' {
        let body = s.drop_first();
        if digits_within(body, 0x8000_0000) {
            Some((-(digits_value(body) as int)) as i32)
        } else {
            None
        }
    } else {
        let body = unsigned_body(s);
        if digits_within(body, i32::MAX as int) {
            Some(digits_value(body) as i32)
        } else {
            None
        }
    }
}

/// `s.parse::<i32>().unwrap_or(default)`.
pub open spec fn parse_i32_or(s: Seq<char>, default: int) -> int {
    match spec_parse_i32(s) {
        Some(v) => v as int,
        None => default,
    }
}

/// The decimal text of a natural number, without leading zeros.
pub open spec fn nat_to_decimal(n: nat) -> Seq<char>
    decreases n,
{
    if n < 10 {
        seq![digit_char(n)]
    } else {
        nat_to_decimal(n / 10).push(digit_char(n % 10))
    }
}

/// The decimal text of an integer: a `-` before the digits of a negative one.
pub open spec fn int_to_decimal(i: int) -> Seq<char> {
    if i < 0 {
        seq!['-'] + nat_to_decimal((-i) as nat)
    } else {
        nat_to_decimal(i as nat)
    }
}

proof fn lemma_digit_roundtrip(d: nat)
    requires
        d < 10,
    ensures
        is_digit(digit_char(d)),
        digit_value(digit_char(d)) == d,
{
}

/// The decimal text of `n` is a run of digits that spells `n`.
pub proof fn lemma_nat_to_decimal(n: nat)
    ensures
        nat_to_decimal(n).len() > 0,
        all_digits(nat_to_decimal(n)),
        digits_value(nat_to_decimal(n)) == n,
        nat_to_decimal(n)[0] != '-',
        nat_to_decimal(n)[0] != '+',
    decreases n,
{
    if n < 10 {
        lemma_digit_roundtrip(n);
        assert(nat_to_decimal(n) =~= seq![digit_char(n)]);
        assert(seq![digit_char(n)].drop_last() =~= Seq::<char>::empty());
        assert(digits_value(Seq::<char>::empty()) == 0);
    } else {
        lemma_nat_to_decimal(n / 10);
        lemma_digit_roundtrip(n % 10);
        let s = nat_to_decimal(n);
        assert(s.drop_last() =~= nat_to_decimal(n / 10));
        assert(s.last() == digit_char(n % 10));
        assert(digits_value(s) == digits_value(s.drop_last()) * 10 + digit_value(s.last()));
        assert((n / 10) * 10 + n % 10 == n);
        assert(s[0] == nat_to_decimal(n / 10)[0]);
        assert forall|i: int| 0 <= i < s.len() implies is_digit(#[trigger] s[i]) by {
            if i < s.len() - 1 {
                assert(s[i] == nat_to_decimal(n / 10)[i]);
            }
        }
    }
}

/// The decimal text of a number starts with `0` only when the number is 0.
pub proof fn lemma_nat_to_decimal_no_leading_zero(n: nat)
    ensures
        nat_to_decimal(n)[0] == '0' ==> n == 0,
        nat_to_decimal(n)[0] == '0' ==> nat_to_decimal(n).len() == 1,
    decreases n,
{
    if n >= 10 {
        lemma_nat_to_decimal_no_leading_zero(n / 10);
        lemma_nat_to_decimal(n / 10);
        assert(nat_to_decimal(n)[0] == nat_to_decimal(n / 10)[0]);
    }
}

/// Reading back the decimal text of a number that fits in an `i32` gives it back.
pub proof fn lemma_parse_i32_of_decimal(i: int)
    requires
        i32::MIN <= i <= i32::MAX,
    ensures
        spec_parse_i32(int_to_decimal(i)) == Some(i as i32),
{
    if i < 0 {
        lemma_nat_to_decimal((-i) as nat);
        let s = int_to_decimal(i);
        assert(s.drop_first() =~= nat_to_decimal((-i) as nat));
    } else {
        lemma_nat_to_decimal(i as nat);
    }
}

/// Reading the decimal text of an integer as a `usize` gives the number back
/// when it is not negative, and fails on the minus sign when it is.
pub proof fn lemma_parse_usize_of_decimal(i: int)
    requires
        i <= usize::MAX,
    ensures
        i >= 0 ==> spec_parse_usize(int_to_decimal(i)) == Some(i as usize),
        i < 0 ==> spec_parse_usize(int_to_decimal(i)) is None,
{
    if i < 0 {
        let s = int_to_decimal(i);
        assert(s[0] == '-');
        assert(!is_digit(s[0]));
    } else {
        lemma_nat_to_decimal(i as nat);
    }
}

proof fn lemma_digits_value_prefix_mono(s: Seq<char>, i: int, j: int)
    requires
        0 <= i <= j <= s.len(),
    ensures
        digits_value(s.take(i)) <= digits_value(s.take(j)),
    decreases j - i,
{
    if i < j {
        lemma_digits_value_prefix_mono(s, i, j - 1);
        assert(s.take(j).drop_last() =~= s.take(j - 1));
    }
}

/// The value of the digits of `s` from `start` on, if they are all digits, at
/// least one, and the value is at most `limit`.
fn digits_upto(s: &str, start: usize, limit: u64) -> (r: Option<u64>)
    requires
        start <= s@.len(),
    ensures
        match r {
            Some(v) => digits_within(s@.skip(start as int), limit as int) && v == digits_value(
                s@.skip(start as int),
            ),
            None => !digits_within(s@.skip(start as int), limit as int),
        },
{
    let ghost body = s@.skip(start as int);
    let n = s.unicode_len();
    if start == n {
        return None;
    }
    let mut i = start;
    while i < n
        invariant
            start <= i <= n,
            n == s@.len(),
            body == s@.skip(start as int),
            forall|k: int| 0 <= k < i - start ==> is_digit(#[trigger] body[k]),
        decreases n - i,
    {
        let c = s.get_char(i);
        if !('0' <= c && c <= '9') {
            assert(body[i - start] == c);
            return None;
        }
        i = i + 1;
    }
    assert(all_digits(body));
    let mut acc: u64 = 0;
    let mut j = start;
    while j < n
        invariant
            start <= j <= n,
            n == s@.len(),
            body == s@.skip(start as int),
            all_digits(body),
            acc <= limit,
            acc == digits_value(body.take(j - start)),
        decreases n - j,
    {
        let c = s.get_char(j);
        assert(c == body[j - start]);
        assert(is_digit(c));
        let d: u64 = (c as u64) - ('0' as u64);
        let next: u128 = (acc as u128) * 10 + (d as u128);
        assert(body.take(j + 1 - start).drop_last() =~= body.take(j - start));
        assert(body.take(j + 1 - start).last() == c);
        if next > limit as u128 {
            proof {
                lemma_digits_value_prefix_mono(body, j + 1 - start, body.len() as int);
                assert(body.take(body.len() as int) =~= body);
            }
            return None;
        }
        acc = next as u64;
        j = j + 1;
    }
    assert(body.take(n - start) =~= body);
    Some(acc)
}

/// Reads a `usize` the way `s.parse::<usize>()` does.
pub fn parse_usize(s: &str) -> (r: Option<usize>)
    ensures
        r == spec_parse_usize(s@),
{
    let n = s.unicode_len();
    let start: usize = if n > 0 && s.get_char(0) == '+' {
        1
    } else {
        0
    };
    assert(s@.skip(0) =~= s@);
    assert(s@.skip(1) =~= s@.drop_first());
    match digits_upto(s, start, usize::MAX as u64) {
        Some(v) => Some(v as usize),
        None => None,
    }
}

/// Reads an `i32` the way `s.parse::<i32>()` does.
pub fn parse_i32(s: &str) -> (r: Option<i32>)
    ensures
        r == spec_parse_i32(s@),
{
    let n = s.unicode_len();
    assert(s@.skip(0) =~= s@);
    assert(s@.skip(1) =~= s@.drop_first());
    if n > 0 && s.get_char(0) == '-' {
        match digits_upto(s, 1, 0x8000_0000) {
            Some(v) => {
                let neg: i64 = -(v as i64);
                Some(neg as i32)
            },
            None => None,
        }
    } else {
        let start: usize = if n > 0 && s.get_char(0) == '+' {
            1
        } else {
            0
        };
        match digits_upto(s, start, 0x7fff_ffff) {
            Some(v) => Some(v as i32),
            None => None,
        }
    }
}

/// The one-character text of a digit.
fn digit_text(d: u64) -> (r: &'static str)
    requires
        d < 10,
    ensures
        r@ == seq![digit_char(d as nat)],
{
    proof {
        reveal_strlit("0");
        reveal_strlit("1");
        reveal_strlit("2");
        reveal_strlit("3");
        reveal_strlit("4");
        reveal_strlit("5");
        reveal_strlit("6");
        reveal_strlit("7");
        reveal_strlit("8");
        reveal_strlit("9");
    }
    let r = if d == 0 {
        "0"
    } else if d == 1 {
        "1"
    } else if d == 2 {
        "2"
    } else if d == 3 {
        "3"
    } else if d == 4 {
        "4"
    } else if d == 5 {
        "5"
    } else if d == 6 {
        "6"
    } else if d == 7 {
        "7"
    } else if d == 8 {
        "8"
    } else {
        "9"
    };
    assert(r@ =~= seq![digit_char(d as nat)]);
    r
}

/// Writes an unsigned number in decimal, as `to_string` does.
pub fn u64_to_string(n: u64) -> (r: String)
    ensures
        r@ == nat_to_decimal(n as nat),
    decreases n,
{
    if n < 10 {
        String::from_str(digit_text(n))
    } else {
        let mut s = u64_to_string(n / 10);
        s.append(digit_text(n % 10));
        s
    }
}

/// Writes a signed number in decimal, as `to_string` does.
pub fn i64_to_string(n: i64) -> (r: String)
    ensures
        r@ == int_to_decimal(n as int),
{
    if n < 0 {
        let magnitude: u64 = (-(n as i128)) as u64;
        let digits = u64_to_string(magnitude);
        proof {
            reveal_strlit("-");
        }
        let mut s = String::from_str("-");
        s.append(digits.as_str());
        assert(s@ =~= int_to_decimal(n as int));
        s
    } else {
        u64_to_string(n as u64)
    }
}

} // verus!
