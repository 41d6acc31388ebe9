//! Whole numbers written in decimal.
use vstd::prelude::*;
use vstd::slice::slice_subrange;

use crate::text;
use crate::text::{append_chars, chars_of, string_of};

verus! {

/// The digit that stands for `d`.
pub open spec fn digit(d: int) -> char {
    if d == 0 { '0' } else if d == 1 { '1' } else if d == 2 { '2' } else if d == 3 { '3' } else if d
        == 4 { '4' } else if d == 5 { '5' } else if d == 6 { '6' } else if d == 7 { '7' } else if d
        == 8 { '8' } else { '9' }
}

/// The decimal digits of `n`, without leading zeros.
pub open spec fn digits(n: nat) -> Seq<char>
    decreases n,
{
    if n < 10 {
        seq![digit(n as int)]
    } else {
        digits(n / 10).push(digit((n % 10) as int))
    }
}

/// `n` in decimal, with a minus sign where it is negative.
pub open spec fn decimal(n: int) -> Seq<char> {
    if n < 0 {
        seq!['-'] + digits((-n) as nat)
    } else {
        digits(n as nat)
    }
}

/// Every character of `s` is a decimal digit.
pub open spec fn all_digits(s: Seq<char>) -> bool {
    forall|i: int| 0 <= i < s.len() ==> text::is_ascii_digit(#[trigger] s[i])
}

/// The number that a run of digits stands for.
pub open spec fn value_of(s: Seq<char>) -> int
    decreases s.len(),
{
    if s.len() == 0 {
        0
    } else {
        value_of(s.take(s.len() - 1)) * 10 + (s[s.len() - 1] as int - '0' as int)
    }
}

/// The number from `low` to `high` that `s` stands for: digits after an optional
/// plus sign or, where `low` is negative, an optional minus sign.
pub open spec fn parsed(s: Seq<char>, low: int, high: int) -> Option<int> {
    let signed = s.len() > 0 && (s[0] == '+' || (s[0] == '-' && low < 0));
    let run = if signed { s.skip(1) } else { s };
    let value = if signed && s[0] == '-' { -value_of(run) } else { value_of(run) };
    if run.len() > 0 && all_digits(run) && low <= value <= high {
        Some(value)
    } else {
        None
    }
}

proof fn value_grows(s: Seq<char>, n: int)
    requires
        all_digits(s),
        0 <= n <= s.len(),
    ensures
        0 <= value_of(s.take(n)) <= value_of(s),
    decreases s.len(),
{
    if n == s.len() {
        assert(s.take(n) =~= s);
        if n > 0 {
            assert(text::is_ascii_digit(s[s.len() - 1]));
            value_grows(s.take(s.len() - 1), s.len() - 1);
        }
    } else {
        let shorter = s.take(s.len() - 1);
        assert(text::is_ascii_digit(s[s.len() - 1]));
        value_grows(shorter, n);
        assert(shorter.take(n) =~= s.take(n));
    }
}

/// What is written in decimal is read back as the same number.
pub proof fn decimal_reads_back(n: int, low: int, high: int)
    requires
        low <= n <= high,
    ensures
        parsed(decimal(n), low, high) == Some(n),
{
    if n < 0 {
        digits_read_back((-n) as nat);
        let s = decimal(n);
        assert(s.skip(1) =~= digits((-n) as nat));
        assert(s[0] == '-');
    } else {
        digits_read_back(n as nat);
        assert(text::is_ascii_digit(digits(n as nat)[0]));
    }
}

proof fn digits_read_back(n: nat)
    ensures
        digits(n).len() > 0,
        all_digits(digits(n)),
        value_of(digits(n)) == n,
    decreases n,
{
    let s = digits(n);
    if n < 10 {
        assert(s.take(0) =~= Seq::<char>::empty());
        assert(value_of(s.take(0)) == 0);
    } else {
        digits_read_back(n / 10);
        assert(s.take(s.len() - 1) =~= digits(n / 10));
    }
}

fn digit_char(d: u128) -> (r: char)
    requires
        d < 10,
    ensures
        r == digit(d as int),
{
    if d == 0 { '0' } else if d == 1 { '1' } else if d == 2 { '2' } else if d == 3 { '3' } else if d
        == 4 { '4' } else if d == 5 { '5' } else if d == 6 { '6' } else if d == 7 { '7' } else if d
        == 8 { '8' } else { '9' }
}

fn digit_chars(n: u128) -> (r: Vec<char>)
    ensures
        r@ == digits(n as nat),
    decreases n,
{
    if n < 10 {
        let mut r: Vec<char> = Vec::new();
        r.push(digit_char(n));
        r
    } else {
        let mut r = digit_chars(n / 10);
        r.push(digit_char(n % 10));
        r
    }
}

/// `n` in decimal.
pub fn unsigned_text(n: u128) -> (r: String)
    ensures
        r@ == decimal(n as int),
{
    string_of(digit_chars(n).as_slice())
}

/// `n` in decimal.
pub fn signed_text(n: i64) -> (r: String)
    ensures
        r@ == decimal(n as int),
{
    if n < 0 {
        let mut chars: Vec<char> = vec!['-'];
        let magnitude: u64 = (-(n + 1)) as u64 + 1;
        append_chars(&mut chars, digit_chars(magnitude as u128).as_slice());
        string_of(chars.as_slice())
    } else {
        unsigned_text(n as u128)
    }
}

/// `Some(n)` or `None`, as `{:?}` writes an optional number.
pub open spec fn option_text(n: Option<i32>) -> Seq<char> {
    match n {
        Some(n) => "Some("@ + decimal(n as int) + ")"@,
        None => "None"@,
    }
}

/// An optional number, as `{:?}` writes it.
pub fn option_i32_text(n: Option<i32>) -> (r: String)
    ensures
        r@ == option_text(n),
{
    match n {
        Some(n) => {
            let mut r = "Some(".to_owned();
            r.append(signed_text(n as i64).as_str());
            r.append(")");
            r
        },
        None => "None".to_owned(),
    }
}

fn run_value(s: &[char]) -> (r: Option<u64>)
    ensures
        match r {
            Some(v) => s@.len() > 0 && all_digits(s@) && value_of(s@) == v,
            None => !(s@.len() > 0 && all_digits(s@) && value_of(s@) <= u64::MAX),
        },
{
    if s.len() == 0 {
        return None;
    }
    let mut value: u64 = 0;
    let mut i: usize = 0;
    while i < s.len()
        invariant
            i <= s@.len(),
            all_digits(s@.take(i as int)),
            value == value_of(s@.take(i as int)),
        decreases s@.len() - i,
    {
        let c = s[i];
        if !('0' <= c && c <= '9') {
            assert(!text::is_ascii_digit(s@[i as int]));
            return None;
        }
        let d: u64 = (c as u32 - '0' as u32) as u64;
        assert(s@.take(i + 1).take(i as int) =~= s@.take(i as int));
        proof {
            if all_digits(s@) {
                value_grows(s@, i + 1);
            }
        }
        if value > (u64::MAX - d) / 10 {
            assert(value_of(s@.take(i + 1)) > u64::MAX);
            return None;
        }
        value = value * 10 + d;
        i += 1;
    }
    assert(s@.take(i as int) =~= s@);
    Some(value)
}

/// The `i64` that `s` stands for, as `str::parse` reads it.
pub fn parse_i64(s: &[char]) -> (r: Option<i64>)
    ensures
        match r {
            Some(v) => parsed(s@, i64::MIN as int, i64::MAX as int) == Some(v as int),
            None => parsed(s@, i64::MIN as int, i64::MAX as int) is None,
        },
{
    if s.len() == 0 {
        return None;
    }
    if s[0] == '+' || s[0] == '-' {
        let run = slice_subrange(s, 1, s.len());
        assert(run@ =~= s@.skip(1));
        match run_value(run) {
            None => None,
            Some(v) => {
                if s[0] == '+' {
                    if v <= i64::MAX as u64 {
                        Some(v as i64)
                    } else {
                        None
                    }
                } else if v <= i64::MAX as u64 {
                    Some(-(v as i64))
                } else if v == 0x8000_0000_0000_0000 {
                    Some(i64::MIN)
                } else {
                    None
                }
            },
        }
    } else {
        match run_value(s) {
            Some(v) => if v <= i64::MAX as u64 {
                Some(v as i64)
            } else {
                None
            },
            None => None,
        }
    }
}

/// The `usize` that `s` stands for, as `str::parse` reads it.
pub fn parse_usize(s: &[char]) -> (r: Option<usize>)
    ensures
        match r {
            Some(v) => parsed(s@, 0, usize::MAX as int) == Some(v as int),
            None => parsed(s@, 0, usize::MAX as int) is None,
        },
{
    if s.len() == 0 {
        return None;
    }
    let run = if s[0] == '+' {
        slice_subrange(s, 1, s.len())
    } else {
        s
    };
    assert(s@[0] == '+' ==> run@ =~= s@.skip(1));
    match run_value(run) {
        Some(v) => if v <= usize::MAX as u64 {
            Some(v as usize)
        } else {
            None
        },
        None => None,
    }
}

/// The `i64` that a string stands for.
pub fn parse_i64_str(s: &str) -> (r: Option<i64>)
    ensures
        match r {
            Some(v) => parsed(s@, i64::MIN as int, i64::MAX as int) == Some(v as int),
            None => parsed(s@, i64::MIN as int, i64::MAX as int) is None,
        },
{
    let chars = chars_of(s);
    parse_i64(chars.as_slice())
}

/// Numbers are written in the decimal system: the last digit is the remainder by ten, and
/// a negative number has a minus sign before its digits.
pub proof fn numbers_are_written_in_decimal(n: nat, d: int)
    requires
        0 <= d <= 9,
    ensures
        decimal(d) == seq![('0' as int + d) as char],
        n > 0 ==> decimal(10 * n + d) == decimal(n as int).push(('0' as int + d) as char),
        n > 0 ==> decimal(-n) == seq!['-'] + decimal(n as int),
{
    assert(digit(d) == ('0' as int + d) as char);
    if n > 0 {
        assert((10 * n + d) / 10 == n && (10 * n + d) % 10 == d);
        assert(digits((10 * n + d) as nat) == digits(n).push(digit(d)));
    }
}

/// A number in decimal is made of digits, with a minus sign before them where it is
/// negative.
pub proof fn decimal_is_digits(n: int)
    ensures
        decimal(n).len() > 0,
        forall|i: int|
            0 <= i < decimal(n).len() ==> '0' <= #[trigger] decimal(n)[i] <= '9' || (decimal(n)[i]
                == '-' && i == 0 && n < 0),
{
    if n < 0 {
        digits_read_back((-n) as nat);
        assert forall|i: int| 0 <= i < decimal(n).len() implies '0' <= #[trigger] decimal(n)[i]
            <= '9' || (decimal(n)[i] == '-' && i == 0) by {
            if i > 0 {
                assert(decimal(n)[i] == digits((-n) as nat)[i - 1]);
                assert(text::is_ascii_digit(digits((-n) as nat)[i - 1]));
            }
        }
    } else {
        digits_read_back(n as nat);
        assert forall|i: int| 0 <= i < decimal(n).len() implies '0' <= #[trigger] decimal(n)[i]
            <= '9' by {
            assert(text::is_ascii_digit(digits(n as nat)[i]));
        }
    }
}

/// A text that holds anything but digits, but for a sign before them, is no number, nor
/// is an empty one or a number that is out of range.
pub proof fn only_digits_are_a_number(s: Seq<char>, low: int, high: int, i: int)
    ensures
        s.len() == 0 ==> parsed(s, low, high) is None,
        0 <= i < s.len() && !('0' <= s[i] <= '9') && !(i == 0 && (s[i] == '+' || s[i] == '-'))
            ==> parsed(s, low, high) is None,
        parsed(s, low, high) matches Some(n) ==> low <= n <= high,
        low <= i <= high ==> parsed(decimal(i), low, high) == Some(i),
        i < low || high < i ==> parsed(decimal(i), low, high) is None,
{
    if 0 <= i < s.len() && !('0' <= s[i] <= '9') && !(i == 0 && (s[i] == '+' || s[i] == '-')) {
        let signed = s[0] == '+' || (s[0] == '-' && low < 0);
        if signed {
            assert(s.skip(1)[i - 1] == s[i]);
        }
    }
    if low <= i <= high {
        decimal_reads_back(i, low, high);
    } else if i < 0 {
        digits_read_back((-i) as nat);
        assert(decimal(i).skip(1) =~= digits((-i) as nat));
        assert(decimal(i)[0] == '-');
        assert(!text::is_ascii_digit(decimal(i)[0]));
    } else {
        digits_read_back(i as nat);
        assert(text::is_ascii_digit(digits(i as nat)[0]));
    }
}

/// A number that may be absent is written with the word for it.
pub proof fn optional_numbers_are_written(n: i32)
    ensures
        option_text(Some(n)) == "Some("@ + decimal(n as int) + seq![')'],
        option_text(None) == "None"@,
{
    reveal_strlit(")");
    assert(")"@ =~= seq![')']);
}

} // verus!
