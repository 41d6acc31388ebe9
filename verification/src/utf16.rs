//! Text as UTF-16 code units, the form in which Windows takes it.
use vstd::prelude::*;

use crate::text::chars_of;

verus! {

/// The code units of one character: itself, or a surrogate pair above U+FFFF.
pub open spec fn units(c: char) -> Seq<u16> {
    let v = c as int;
    if v < 0x1_0000 {
        seq![v as u16]
    } else {
        seq![(0xd800 + (v - 0x1_0000) / 0x400) as u16, (0xdc00 + (v - 0x1_0000) % 0x400) as u16]
    }
}

/// The code units of a text.
pub open spec fn encoded(s: Seq<char>) -> Seq<u16>
    decreases s.len(),
{
    if s.len() == 0 {
        seq![]
    } else {
        encoded(s.take(s.len() - 1)) + units(s[s.len() - 1])
    }
}

/// The text that a sequence of code units stands for.
pub open spec fn decoded(u: Seq<u16>) -> Seq<char>
    decreases u.len(),
{
    if u.len() == 0 {
        seq![]
    } else if u.len() > 1 && 0xdc00 <= u[u.len() - 1] <= 0xdfff {
        decoded(u.take(u.len() - 2)).push(
            (0x1_0000 + (u[u.len() - 2] - 0xd800) * 0x400 + (u[u.len() - 1] - 0xdc00)) as char,
        )
    } else {
        decoded(u.take(u.len() - 1)).push((u[u.len() - 1] as int) as char)
    }
}

/// The bytes of each code unit, the low one first.
pub open spec fn little_endian(u: Seq<u16>) -> Seq<u8>
    decreases u.len(),
{
    if u.len() == 0 {
        seq![]
    } else {
        little_endian(u.take(u.len() - 1)) + seq![
            (u[u.len() - 1] as int % 256) as u8,
            (u[u.len() - 1] as int / 256) as u8,
        ]
    }
}

/// A character is a number up to 0x10ffff and no surrogate.
proof fn char_range(c: char)
    ensures
        0 <= c as int <= 0x10_ffff,
        !(0xd800 <= c as int <= 0xdfff),
{
}

/// The code units that bytes hold, each with its low byte first; a last single byte
/// counts for nothing.
pub open spec fn words(bytes: Seq<u8>) -> Seq<u16>
    decreases bytes.len(),
{
    if bytes.len() < 2 {
        seq![]
    } else {
        words(bytes.take(bytes.len() - 2)).push(
            (bytes[bytes.len() - 2] as int + bytes[bytes.len() - 1] as int * 256) as u16,
        )
    }
}

/// Reading code units undoes writing them.
pub proof fn words_undo_little_endian(u: Seq<u16>)
    ensures
        words(little_endian(u)) == u,
        little_endian(u).len() == 2 * u.len(),
    decreases u.len(),
{
    if u.len() > 0 {
        let front = u.take(u.len() - 1);
        let last = u[u.len() - 1];
        words_undo_little_endian(front);
        let bytes = little_endian(u);
        assert(bytes.take(bytes.len() - 2) =~= little_endian(front));
        assert((bytes[bytes.len() - 2] as int + bytes[bytes.len() - 1] as int * 256) as u16 == last);
        assert(front.push(last) =~= u);
    } else {
        assert(u =~= seq![]);
    }
}

/// Decoding the code units of a text gives the text.
pub proof fn decoding_undoes_encoding(s: Seq<char>)
    ensures
        decoded(encoded(s)) == s,
    decreases s.len(),
{
    if s.len() > 0 {
        let c = s[s.len() - 1];
        let front = s.take(s.len() - 1);
        let u = encoded(s);
        decoding_undoes_encoding(front);
        char_range(c);
        if (c as int) < 0x1_0000 {
            assert(u.take(u.len() - 1) =~= encoded(front));
            assert(u[u.len() - 1] == c as int);
            assert(!(0xdc00 <= u[u.len() - 1] <= 0xdfff));
        } else {
            let v = c as int - 0x1_0000;
            assert(u.take(u.len() - 2) =~= encoded(front));
            assert(u[u.len() - 2] == 0xd800 + v / 0x400);
            assert(u[u.len() - 1] == 0xdc00 + v % 0x400);
        }
        assert(front.push(c) =~= s);
    }
}

/// The code units of `text`.
pub fn code_units(text: &str) -> (r: Vec<u16>)
    ensures
        r@ == encoded(text@),
{
    let chars = chars_of(text);
    let mut r: Vec<u16> = Vec::new();
    let mut i: usize = 0;
    while i < chars.len()
        invariant
            i <= chars@.len(),
            r@ == encoded(chars@.take(i as int)),
        decreases chars@.len() - i,
    {
        let v: u32 = chars[i] as u32;
        let ghost before = r@;
        proof {
            char_range(chars@[i as int]);
        }
        if v < 0x1_0000 {
            r.push(v as u16);
        } else {
            let w: u32 = v - 0x1_0000;
            r.push((0xd800 + w / 0x400) as u16);
            r.push((0xdc00 + w % 0x400) as u16);
        }
        assert(r@ =~= before + units(chars@[i as int]));
        assert(chars@.take(i + 1).take(i as int) =~= chars@.take(i as int));
        i += 1;
    }
    assert(chars@.take(i as int) =~= chars@);
    r
}

/// The bytes of the code units of `text`, the low one of each first.
pub fn little_endian_bytes(text: &str) -> (r: Vec<u8>)
    ensures
        r@ == little_endian(encoded(text@)),
{
    let words = code_units(text);
    let mut r: Vec<u8> = Vec::new();
    let mut i: usize = 0;
    while i < words.len()
        invariant
            i <= words@.len(),
            r@ == little_endian(words@.take(i as int)),
        decreases words@.len() - i,
    {
        let word: u16 = words[i];
        r.push((word % 256) as u8);
        r.push((word / 256) as u8);
        assert(words@.take(i + 1).take(i as int) =~= words@.take(i as int));
        assert(r@ =~= little_endian(words@.take(i + 1)));
        i += 1;
    }
    assert(words@.take(i as int) =~= words@);
    r
}

/// The code units of a text are those of its characters, one after the other.
pub proof fn code_units_follow_each_other(s: Seq<char>, c: char, t: Seq<char>)
    ensures
        encoded(s + t) == encoded(s) + encoded(t),
        (c as int) < 0x1_0000 ==> encoded(seq![c]).len() == 1 && encoded(seq![c])[0] == c as int,
        c as int >= 0x1_0000 ==> encoded(seq![c]).len() == 2 && 0xd800 <= encoded(seq![c])[0]
            < 0xdc00 <= encoded(seq![c])[1] < 0xe000 && c as int == 0x1_0000 + (encoded(seq![c])[0]
            - 0xd800) * 0x400 + (encoded(seq![c])[1] - 0xdc00),
    decreases t.len(),
{
    char_range(c);
    let one = seq![c];
    assert(one.take(0) =~= seq![]);
    assert(encoded(one.take(0)) =~= seq![]);
    assert(encoded(one) =~= units(c));
    if t.len() == 0 {
        assert(s + t =~= s);
        assert(encoded(s) + encoded(t) =~= encoded(s));
    } else {
        let front = t.take(t.len() - 1);
        code_units_follow_each_other(s, c, front);
        assert((s + t).take((s + t).len() - 1) =~= s + front);
        assert((s + t)[(s + t).len() - 1] == t[t.len() - 1]);
        assert(encoded(s) + encoded(t) =~= (encoded(s) + encoded(front)) + units(t[t.len() - 1]));
    }
}

/// Each code unit stands there as two bytes, the low one first.
pub proof fn low_bytes_come_first(u: Seq<u16>, i: int)
    requires
        0 <= i < u.len(),
    ensures
        little_endian(u).len() == 2 * u.len(),
        little_endian(u)[2 * i] as int == u[i] as int % 256,
        little_endian(u)[2 * i + 1] as int == u[i] as int / 256,
    decreases u.len(),
{
    words_undo_little_endian(u);
    let front = u.take(u.len() - 1);
    words_undo_little_endian(front);
    if i < front.len() {
        low_bytes_come_first(front, i);
    }
}

} // verus!
