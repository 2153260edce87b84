//! Decimal numbers as text: reading them and writing them.

use vstd::prelude::*;
use crate::text::is_ascii_digit;

verus! {

/// The value of a decimal digit.
pub open spec fn digit_value(c: char) -> nat {
    (c as u32 - 48) as nat
}

/// The character of a digit below ten.
pub open spec fn digit_char(d: nat) -> char {
    ((d + 48) as u8) as char
}

pub open spec fn all_digits(s: Seq<char>) -> bool {
    forall|i: int| 0 <= i < s.len() ==> is_ascii_digit(#[trigger] s[i])
}

/// The number that a text of decimal digits denotes.
pub open spec fn decimal_value(s: Seq<char>) -> nat
    decreases s.len(),
{
    if s.len() == 0 {
        0
    } else {
        decimal_value(s.drop_last()) * 10 + digit_value(s.last())
    }
}

/// The decimal digits of a number, without leading zeros.
pub open spec fn decimal_digits(n: nat) -> Seq<char>
    decreases n,
{
    if n < 10 {
        seq![digit_char(n)]
    } else {
        decimal_digits(n / 10).push(digit_char(n % 10))
    }
}

/// The decimal text of an integer, with `-` before a negative one.
pub open spec fn int_text(i: int) -> Seq<char> {
    if i < 0 {
        seq!['-'] + decimal_digits((-i) as nat)
    } else {
        decimal_digits(i as nat)
    }
}

/// The number that an unsigned decimal text denotes: digits, at least one,
/// with an optional `+` before them.
pub open spec fn unsigned_text_value(s: Seq<char>) -> Option<nat> {
    let digits = if s.len() > 0 && s[0] == '+' {
        s.drop_first()
    } else {
        s
    };
    if digits.len() > 0 && all_digits(digits) {
        Some(decimal_value(digits))
    } else {
        None
    }
}

/// The number that a signed decimal text denotes: digits, at least one, with
/// an optional `+` or `-` before them.
pub open spec fn signed_text_value(s: Seq<char>) -> Option<int> {
    if s.len() > 0 && s[0] == '-' {
        let digits = s.drop_first();
        if digits.len() > 0 && all_digits(digits) {
            Some(-(decimal_value(digits) as int))
        } else {
            None
        }
    } else {
        match unsigned_text_value(s) {
            Some(n) => Some(n as int),
            None => None,
        }
    }
}

/// What reading a text as a `u64` gives: its value where it denotes one that
/// fits.
pub open spec fn u64_of_text(s: Seq<char>) -> Option<u64> {
    match unsigned_text_value(s) {
        Some(n) => if n <= u64::MAX {
            Some(n as u64)
        } else {
            None
        },
        None => None,
    }
}

/// What reading a text as an `i64` gives: its value where it denotes one
/// that fits.
pub open spec fn i64_of_text(s: Seq<char>) -> Option<i64> {
    match signed_text_value(s) {
        Some(n) => if i64::MIN <= n <= i64::MAX {
            Some(n as i64)
        } else {
            None
        },
        None => None,
    }
}

/// More digits never denote less.
pub proof fn lemma_decimal_monotone(s: Seq<char>, i: int, j: int)
    requires
        0 <= i <= j <= s.len(),
    ensures
        decimal_value(s.take(i)) <= decimal_value(s.take(j)),
    decreases j - i,
{
    if i < j {
        lemma_decimal_monotone(s, i, j - 1);
        assert(s.take(j).drop_last() =~= s.take(j - 1));
    }
}

/// The value of the digits from `from` up to `to`, where it is at most
/// `limit`.
pub fn read_digits(v: &Vec<char>, from: usize, to: usize, limit: u64) -> (r: Option<u64>)
    requires
        from <= to <= v.len(),
        all_digits(v@.subrange(from as int, to as int)),
    ensures
        r == if decimal_value(v@.subrange(from as int, to as int)) <= limit {
            Some(decimal_value(v@.subrange(from as int, to as int)) as u64)
        } else {
            None
        },
{
    let ghost s = v@.subrange(from as int, to as int);
    let mut acc: u64 = 0;
    let mut i: usize = from;
    assert(s.take(0) =~= Seq::<char>::empty());
    while i < to
        invariant
            from <= i <= to <= v.len(),
            s == v@.subrange(from as int, to as int),
            all_digits(s),
            acc == decimal_value(s.take(i - from)),
            acc <= limit,
        decreases to - i,
    {
        let c = v[i];
        assert(c == s[i - from]);
        assert(is_ascii_digit(c));
        let d: u64 = (c as u32 - 48) as u64;
        proof {
            assert(s.take(i - from + 1).drop_last() =~= s.take(i - from));
            assert(s.take(i - from + 1).last() == c);
            lemma_decimal_monotone(s, i - from + 1, s.len() as int);
            assert(s.take(s.len() as int) =~= s);
        }
        if d > limit || acc > (limit - d) / 10 {
            return None;
        }
        acc = acc * 10 + d;
        i += 1;
    }
    assert(s.take(s.len() as int) =~= s);
    Some(acc)
}

pub fn chars_all_digits(v: &Vec<char>, from: usize) -> (r: bool)
    requires
        from <= v.len(),
    ensures
        r == all_digits(v@.subrange(from as int, v.len() as int)),
{
    let mut i: usize = from;
    while i < v.len()
        invariant
            from <= i <= v.len(),
            forall|k: int| from <= k < i ==> is_ascii_digit(#[trigger] v[k]),
        decreases v.len() - i,
    {
        if !(('0' <= v[i]) && (v[i] <= '9')) {
            assert(!is_ascii_digit(v@.subrange(from as int, v.len() as int)[i - from]));
            return false;
        }
        i += 1;
    }
    assert forall|k: int| 0 <= k < v@.subrange(from as int, v.len() as int).len() implies is_ascii_digit(
        #[trigger] v@.subrange(from as int, v.len() as int)[k],
    ) by {
        assert(v@.subrange(from as int, v.len() as int)[k] == v[from + k]);
    }
    true
}

/// Reads a text as a `u64`.
pub fn parse_u64_chars(v: &Vec<char>) -> (r: Option<u64>)
    ensures
        r == u64_of_text(v@),
{
    let from: usize = if v.len() > 0 && v[0] == '+' {
        1
    } else {
        0
    };
    assert(v@.subrange(from as int, v.len() as int) =~= if v@.len() > 0 && v@[0] == '+' {
        v@.drop_first()
    } else {
        v@
    });
    if from == v.len() || !chars_all_digits(v, from) {
        return None;
    }
    read_digits(v, from, v.len(), u64::MAX)
}

/// Reads a text as an `i64`.
pub fn parse_i64_chars(v: &Vec<char>) -> (r: Option<i64>)
    ensures
        r == i64_of_text(v@),
{
    if v.len() > 0 && v[0] == '-' {
        assert(v@.subrange(1, v.len() as int) =~= v@.drop_first());
        if v.len() == 1 || !chars_all_digits(v, 1) {
            return None;
        }
        match read_digits(v, 1, v.len(), 0x8000_0000_0000_0000u64) {
            Some(m) => {
                if m == 0x8000_0000_0000_0000u64 {
                    Some(i64::MIN)
                } else {
                    Some(-(m as i64))
                }
            },
            None => None,
        }
    } else {
        let from: usize = if v.len() > 0 && v[0] == '+' {
            1
        } else {
            0
        };
        assert(v@.subrange(from as int, v.len() as int) =~= if v@.len() > 0 && v@[0] == '+' {
            v@.drop_first()
        } else {
            v@
        });
        if from == v.len() || !chars_all_digits(v, from) {
            return None;
        }
        match read_digits(v, from, v.len(), 0x7fff_ffff_ffff_ffffu64) {
            Some(m) => Some(m as i64),
            None => None,
        }
    }
}

/// The decimal digits of a number.
pub fn u64_to_chars(n: u64) -> (r: Vec<char>)
    ensures
        r@ == decimal_digits(n as nat),
    decreases n,
{
    if n < 10 {
        let mut r: Vec<char> = Vec::new();
        r.push(((n + 48) as u8) as char);
        assert(r@ =~= seq![digit_char(n as nat)]);
        r
    } else {
        let mut r = u64_to_chars(n / 10);
        r.push(((n % 10 + 48) as u8) as char);
        r
    }
}

/// The decimal text of an integer.
pub fn i64_to_chars(i: i64) -> (r: Vec<char>)
    ensures
        r@ == int_text(i as int),
{
    if i < 0 {
        let m: u64 = if i == i64::MIN {
            0x8000_0000_0000_0000u64
        } else {
            (-i) as u64
        };
        let digits = u64_to_chars(m);
        let mut r: Vec<char> = Vec::new();
        r.push('-');
        let mut k: usize = 0;
        while k < digits.len()
            invariant
                k <= digits.len(),
                r@ == seq!['-'] + digits@.take(k as int),
            decreases digits.len() - k,
        {
            r.push(digits[k]);
            k += 1;
            assert(r@ =~= seq!['-'] + digits@.take(k as int));
        }
        assert(digits@.take(digits.len() as int) =~= digits@);
        r
    } else {
        u64_to_chars(i as u64)
    }
}

} // verus!
