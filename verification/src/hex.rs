//! Bytes written as pairs of hexadecimal digits.
use vstd::prelude::*;

verus! {

/// The value of a hexadecimal digit.
pub open spec fn hex_digit(c: char) -> Option<int> {
    if '0' <= c <= '9' {
        Some(c as int - '0' as int)
    } else if 'a' <= c <= 'f' {
        Some(c as int - 'a' as int + 10)
    } else if 'A' <= c <= 'F' {
        Some(c as int - 'A' as int + 10)
    } else {
        None
    }
}

/// The byte that two characters stand for: two digits, or a plus sign and one digit.
pub open spec fn pair_value(high: char, low: char) -> Option<int> {
    match hex_digit(low) {
        None => None,
        Some(l) => if high == '+' {
            Some(l)
        } else {
            match hex_digit(high) {
                Some(h) => Some(h * 16 + l),
                None => None,
            }
        },
    }
}

/// The bytes that the pairs of `s` stand for, where all of them stand for one.
pub open spec fn pairs(s: Seq<char>) -> Option<Seq<u8>>
    decreases s.len(),
{
    if s.len() == 0 {
        Some(seq![])
    } else if s.len() == 1 {
        None
    } else {
        match (pair_value(s[0], s[1]), pairs(s.skip(2))) {
            (Some(b), Some(rest)) => Some(seq![b as u8] + rest),
            _ => None,
        }
    }
}

/// The bytes that `s` stands for; an empty text stands for none.
pub open spec fn decoded(s: Seq<char>) -> Option<Seq<u8>> {
    if s.len() == 0 {
        None
    } else {
        pairs(s)
    }
}

/// The lower case hexadecimal digit of a number below sixteen.
pub open spec fn digit_of(d: int) -> char {
    if d < 10 {
        ('0' as int + d) as char
    } else {
        ('a' as int + d - 10) as char
    }
}

/// Two digits for each byte.
pub open spec fn encoded(bytes: Seq<u8>) -> Seq<char>
    decreases bytes.len(),
{
    if bytes.len() == 0 {
        seq![]
    } else {
        seq![digit_of(bytes[0] as int / 16), digit_of(bytes[0] as int % 16)] + encoded(
            bytes.skip(1),
        )
    }
}

/// The two digits of each byte are decoded to that byte.
pub proof fn decoding_undoes_encoding(bytes: Seq<u8>)
    requires
        bytes.len() > 0,
    ensures
        decoded(encoded(bytes)) == Some(bytes),
{
    pairs_undo_encoding(bytes);
}

proof fn pairs_undo_encoding(bytes: Seq<u8>)
    ensures
        pairs(encoded(bytes)) == Some(bytes),
    decreases bytes.len(),
{
    if bytes.len() > 0 {
        let s = encoded(bytes);
        let tail = bytes.skip(1);
        pairs_undo_encoding(tail);
        assert(s.skip(2) =~= encoded(tail));
        assert(hex_digit(s[0]) == Some(bytes[0] as int / 16));
        assert(hex_digit(s[1]) == Some(bytes[0] as int % 16));
        assert(pair_value(s[0], s[1]) == Some(bytes[0] as int));
        assert(seq![bytes[0]] + tail =~= bytes);
    }
}

fn hex_value(c: char) -> (r: Option<u8>)
    ensures
        match r {
            Some(v) => hex_digit(c) == Some(v as int) && v < 16,
            None => hex_digit(c) is None,
        },
{
    if '0' <= c && c <= '9' {
        Some((c as u32 - '0' as u32) as u8)
    } else if 'a' <= c && c <= 'f' {
        Some((c as u32 - 'a' as u32 + 10) as u8)
    } else if 'A' <= c && c <= 'F' {
        Some((c as u32 - 'A' as u32 + 10) as u8)
    } else {
        None
    }
}

fn byte_of(high: char, low: char) -> (r: Option<u8>)
    ensures
        match r {
            Some(v) => pair_value(high, low) == Some(v as int),
            None => pair_value(high, low) is None,
        },
{
    match hex_value(low) {
        None => None,
        Some(l) => if high == '+' {
            Some(l)
        } else {
            match hex_value(high) {
                Some(h) => Some(h * 16 + l),
                None => None,
            }
        },
    }
}

/// The bytes that `hex` stands for.
pub fn decode_hex(hex: &[char]) -> (r: Option<Vec<u8>>)
    ensures
        match r {
            Some(bytes) => decoded(hex@) == Some(bytes@) && bytes@.len() > 0,
            None => decoded(hex@) is None,
        },
{
    if hex.len() == 0 {
        return None;
    }
    let mut bytes: Vec<u8> = Vec::new();
    let mut i: usize = 0;
    assert(hex@.skip(0) =~= hex@);
    while i < hex.len()
        invariant
            i <= hex@.len(),
            i > 0 ==> bytes@.len() > 0,
            match pairs(hex@.skip(i as int)) {
                Some(rest) => pairs(hex@) == Some(bytes@ + rest),
                None => pairs(hex@) is None,
            },
        decreases hex@.len() - i,
    {
        let ghost here = hex@.skip(i as int);
        if hex.len() - i == 1 {
            return None;
        }
        match byte_of(hex[i], hex[i + 1]) {
            None => {
                return None;
            },
            Some(b) => {
                let ghost before = bytes@;
                bytes.push(b);
                assert(here.skip(2) =~= hex@.skip(i + 2));
                proof {
                    if let Some(rest) = pairs(hex@.skip(i + 2)) {
                        assert(before + (seq![b] + rest) =~= bytes@ + rest);
                    }
                }
                i += 2;
            },
        }
    }
    proof {
        assert(hex@.skip(i as int) =~= seq![]);
        assert(bytes@ + Seq::<u8>::empty() =~= bytes@);
    }
    Some(bytes)
}

/// The digits from 0 to 9 and from a to f, in either case, stand for the numbers below
/// sixteen, and two of them for sixteen times the first and the second.
pub proof fn pairs_are_read_in_base_sixteen(high: char, low: char, h: int, l: int)
    requires
        is_digit_of(high, h),
        is_digit_of(low, l),
    ensures
        decoded(seq![high, low]) == Some(seq![(16 * h + l) as u8]),
{
    let s = seq![high, low];
    assert(s.skip(2) =~= seq![]);
    assert(pairs(s.skip(2)) == Some(Seq::<u8>::empty()));
    assert(seq![(h * 16 + l) as u8] + Seq::<u8>::empty() =~= seq![(16 * h + l) as u8]);
}

/// `c` is the hexadecimal digit of `d`.
pub open spec fn is_digit_of(c: char, d: int) -> bool {
    ||| 0 <= d <= 9 && c as int == '0' as int + d
    ||| 10 <= d <= 15 && c as int == 'a' as int + d - 10
    ||| 10 <= d <= 15 && c as int == 'A' as int + d - 10
}

/// The digits of bytes are digits from 0 to 9 and from a to f.
pub proof fn encoding_is_digits(bytes: Seq<u8>)
    ensures
        encoded(bytes).len() == 2 * bytes.len(),
        forall|i: int|
            0 <= i < encoded(bytes).len() ==> '0' <= #[trigger] encoded(bytes)[i] <= '9' || 'a'
                <= encoded(bytes)[i] <= 'f',
    decreases bytes.len(),
{
    if bytes.len() > 0 {
        let tail = encoded(bytes.skip(1));
        encoding_is_digits(bytes.skip(1));
        assert forall|i: int| 0 <= i < encoded(bytes).len() implies '0' <= #[trigger] encoded(
            bytes,
        )[i] <= '9' || 'a' <= encoded(bytes)[i] <= 'f' by {
            if i >= 2 {
                assert(encoded(bytes)[i] == tail[i - 2]);
            }
        }
    }
}

} // verus!
