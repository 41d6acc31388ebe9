//! Text as a sequence of characters: searching, splitting, trimming, replacing.
use vstd::prelude::*;
use vstd::slice::slice_subrange;

verus! {

/// `std::string::String::push` appends one character at the end.
pub assume_specification[ std::string::String::push ](s: &mut std::string::String, c: char)
    ensures
        final(s)@ == old(s)@.push(c),
;

/// The text of bytes that may not be UTF-8: what is not is replaced by U+FFFD.
pub uninterp spec fn lossy_text(bytes: Seq<u8>) -> Seq<char>;

/// `std::string::String::from_utf8`: the text of bytes that are UTF-8.
#[verifier::external_body]
pub(crate) fn utf8_text(bytes: Vec<u8>) -> (r: Option<String>)
    ensures
        match r {
            Some(s) => vstd::utf8::valid_utf8(bytes@) && s@ == vstd::utf8::decode_utf8(bytes@),
            None => !vstd::utf8::valid_utf8(bytes@),
        },
{
    String::from_utf8(bytes).ok()
}

/// `std::string::String::from_utf8_lossy`. Bytes that are UTF-8 give their text.
#[verifier::external_body]
pub(crate) fn text_of_bytes(bytes: &[u8]) -> (r: String)
    ensures
        r@ == lossy_text(bytes@),
        vstd::utf8::valid_utf8(bytes@) ==> r@ == vstd::utf8::decode_utf8(bytes@),
{
    String::from_utf8_lossy(bytes).into_owned()
}

// ---------------------------------------------------------------------------
// What the operations mean
// ---------------------------------------------------------------------------

/// `pattern` stands in `s` at position `i`.
pub open spec fn occurs_at(s: Seq<char>, pattern: Seq<char>, i: int) -> bool {
    &&& 0 <= i
    &&& i + pattern.len() <= s.len()
    &&& s.subrange(i, i + pattern.len()) == pattern
}

/// `i` is the leftmost position of `pattern` in `s`.
pub open spec fn first_at(s: Seq<char>, pattern: Seq<char>, i: int) -> bool {
    &&& occurs_at(s, pattern, i)
    &&& forall|j: int| 0 <= j < i ==> !occurs_at(s, pattern, j)
}

/// The leftmost position of `pattern` in `s`.
pub open spec fn find(s: Seq<char>, pattern: Seq<char>) -> Option<int> {
    if exists|i: int| first_at(s, pattern, i) {
        Some(choose|i: int| first_at(s, pattern, i))
    } else {
        None
    }
}

/// `pattern` stands somewhere in `s`.
pub open spec fn occurs(s: Seq<char>, pattern: Seq<char>) -> bool {
    exists|i: int| occurs_at(s, pattern, i)
}

/// The pieces of `s` between the occurrences of `separator`, from left to right.
pub open spec fn split(s: Seq<char>, separator: Seq<char>) -> Seq<Seq<char>>
    decreases s.len(),
{
    if separator.len() == 0 {
        seq![s]
    } else {
        match find(s, separator) {
            None => seq![s],
            Some(i) => seq![s.take(i)] + split(s.skip(i + separator.len()), separator),
        }
    }
}

/// `s` with every occurrence of `from`, taken from left to right, replaced by `to`.
pub open spec fn replace(s: Seq<char>, from: Seq<char>, to: Seq<char>) -> Seq<char>
    decreases s.len(),
{
    if from.len() == 0 {
        s
    } else {
        match find(s, from) {
            None => s,
            Some(i) => s.take(i) + to + replace(s.skip(i + from.len()), from, to),
        }
    }
}

/// `s` without the occurrences of `prefix` that it starts with.
pub open spec fn without_prefixes(s: Seq<char>, prefix: Seq<char>) -> Seq<char>
    decreases s.len(),
{
    if prefix.len() > 0 && occurs_at(s, prefix, 0) {
        without_prefixes(s.skip(prefix.len() as int), prefix)
    } else {
        s
    }
}

/// The white space characters of Unicode (property `White_Space`).
pub open spec fn is_white(c: char) -> bool {
    ||| '\u{9}' <= c <= '\u{d}'
    ||| c == '\u{20}'
    ||| c == '\u{85}'
    ||| c == '\u{a0}'
    ||| c == '\u{1680}'
    ||| '\u{2000}' <= c <= '\u{200a}'
    ||| c == '\u{2028}'
    ||| c == '\u{2029}'
    ||| c == '\u{202f}'
    ||| c == '\u{205f}'
    ||| c == '\u{3000}'
}

/// `s` without the characters of `set` that it starts with.
pub open spec fn trim_start(s: Seq<char>, set: spec_fn(char) -> bool) -> Seq<char>
    decreases s.len(),
{
    if s.len() > 0 && set(s[0]) {
        trim_start(s.skip(1), set)
    } else {
        s
    }
}

/// `s` without the characters of `set` that it ends with.
pub open spec fn trim_end(s: Seq<char>, set: spec_fn(char) -> bool) -> Seq<char>
    decreases s.len(),
{
    if s.len() > 0 && set(s[s.len() - 1]) {
        trim_end(s.take(s.len() - 1), set)
    } else {
        s
    }
}

/// The set of the white space characters.
pub open spec fn white_space() -> spec_fn(char) -> bool {
    |c: char| is_white(c)
}

/// The set that holds `c` alone.
pub open spec fn only(c: char) -> spec_fn(char) -> bool {
    |x: char| x == c
}

/// `s` without white space at either end.
pub open spec fn trim(s: Seq<char>) -> Seq<char> {
    trim_end(trim_start(s, white_space()), white_space())
}

/// `s` without the occurrences of `c` at either end.
pub open spec fn trim_char(s: Seq<char>, c: char) -> Seq<char> {
    trim_end(trim_start(s, only(c)), only(c))
}

/// The last position of `c` in `s`.
pub open spec fn last_index(s: Seq<char>, c: char) -> Option<int>
    decreases s.len(),
{
    if s.len() == 0 {
        None
    } else if s[s.len() - 1] == c {
        Some(s.len() - 1)
    } else {
        last_index(s.take(s.len() - 1), c)
    }
}

/// `line` without the carriage return of a `\r\n` line end.
pub open spec fn strip_return(line: Seq<char>) -> Seq<char> {
    if line.len() > 0 && line[line.len() - 1] == '\r' {
        line.take(line.len() - 1)
    } else {
        line
    }
}

/// The lines of `s`; a line ends at `\n` or `\r\n`, and the last line end is optional.
pub open spec fn lines(s: Seq<char>) -> Seq<Seq<char>>
    decreases s.len(),
{
    if s.len() == 0 {
        seq![]
    } else {
        match find(s, seq!['\n']) {
            None => seq![s],
            Some(i) => seq![strip_return(s.take(i))] + lines(s.skip(i + 1)),
        }
    }
}

pub open spec fn is_ascii_digit(c: char) -> bool {
    '0' <= c <= '9'
}

pub open spec fn is_ascii_letter(c: char) -> bool {
    'a' <= c <= 'z' || 'A' <= c <= 'Z'
}

pub open spec fn is_ascii_alphanumeric(c: char) -> bool {
    is_ascii_digit(c) || is_ascii_letter(c)
}

/// The characters of each string.
pub open spec fn texts(list: Seq<String>) -> Seq<Seq<char>> {
    list.map_values(|s: String| s@)
}

/// The characters of each piece.
pub open spec fn pieces(list: Seq<Vec<char>>) -> Seq<Seq<char>> {
    list.map_values(|s: Vec<char>| s@)
}

/// The characters of a string that may be absent.
pub open spec fn text_option(s: Option<String>) -> Option<Seq<char>> {
    match s {
        Some(s) => Some(s@),
        None => None,
    }
}

/// The characters of a string, or of the message in its place.
pub open spec fn text_result(r: Result<String, String>) -> Result<Seq<char>, Seq<char>> {
    match r {
        Ok(s) => Ok(s@),
        Err(message) => Err(message@),
    }
}

// ---------------------------------------------------------------------------
// Facts
// ---------------------------------------------------------------------------

/// A leftmost position is the one that `find` gives.
pub proof fn find_is_first(s: Seq<char>, pattern: Seq<char>, i: int)
    requires
        first_at(s, pattern, i),
    ensures
        find(s, pattern) == Some(i),
{
    let k = choose|k: int| first_at(s, pattern, k);
    assert(first_at(s, pattern, k));
    if k < i {
        assert(!occurs_at(s, pattern, k));
    }
    if i < k {
        assert(!occurs_at(s, pattern, i));
    }
}

/// Where `find` gives nothing, the pattern does not occur.
pub proof fn find_none(s: Seq<char>, pattern: Seq<char>)
    ensures
        find(s, pattern) is None <==> !occurs(s, pattern),
{
    if occurs(s, pattern) {
        let i = choose|i: int| occurs_at(s, pattern, i);
        least_occurrence(s, pattern, i);
    } else {
        assert forall|i: int| !first_at(s, pattern, i) by {
            assert(!occurs_at(s, pattern, i));
        }
    }
}

proof fn least_occurrence(s: Seq<char>, pattern: Seq<char>, i: int)
    requires
        occurs_at(s, pattern, i),
    ensures
        find(s, pattern) is Some,
    decreases i,
{
    if exists|j: int| 0 <= j < i && occurs_at(s, pattern, j) {
        let j = choose|j: int| 0 <= j < i && occurs_at(s, pattern, j);
        least_occurrence(s, pattern, j);
    } else {
        assert(first_at(s, pattern, i));
    }
}

/// A pattern that `s` does not start with is found where the rest of `s` has it.
pub proof fn find_past_first(s: Seq<char>, pattern: Seq<char>)
    requires
        s.len() > 0,
        !occurs_at(s, pattern, 0),
    ensures
        find(s, pattern) == (match find(s.skip(1), pattern) {
            Some(i) => Some(i + 1),
            None => None,
        }),
{
    let rest = s.skip(1);
    assert forall|i: int| 0 <= i implies occurs_at(rest, pattern, i) == occurs_at(
        s,
        pattern,
        i + 1,
    ) by {
        if i + pattern.len() <= rest.len() {
            assert(rest.subrange(i, i + pattern.len()) =~= s.subrange(
                i + 1,
                i + 1 + pattern.len(),
            ));
        }
    }
    match find(rest, pattern) {
        Some(i) => {
            assert(first_at(rest, pattern, i));
            assert forall|j: int| 0 <= j < i + 1 implies !occurs_at(s, pattern, j) by {
                if j > 0 {
                    assert(!occurs_at(rest, pattern, j - 1));
                }
            }
            find_is_first(s, pattern, i + 1);
        },
        None => {
            find_none(rest, pattern);
            find_none(s, pattern);
            if occurs(s, pattern) {
                let j = choose|j: int| occurs_at(s, pattern, j);
                assert(occurs_at(rest, pattern, j - 1));
            }
        },
    }
}

/// A text in which a pattern does not occur stays as it is where the pattern is
/// replaced.
pub proof fn replace_without_occurrence(s: Seq<char>, from: Seq<char>, to: Seq<char>)
    requires
        !occurs(s, from),
    ensures
        replace(s, from, to) == s,
{
    find_none(s, from);
}

// ---------------------------------------------------------------------------
// The operations
// ---------------------------------------------------------------------------

/// The characters of `s`.
pub fn chars_of(s: &str) -> (r: Vec<char>)
    ensures
        r@ == s@,
{
    let mut r: Vec<char> = Vec::new();
    for c in it: s.chars()
        invariant
            it.seq() == s@,
            r@ == s@.take(it.index() as int),
    {
        r.push(c);
    }
    r
}

/// The string made of `chars`.
pub fn string_of(chars: &[char]) -> (r: String)
    ensures
        r@ == chars@,
{
    let mut r = String::new();
    let mut i: usize = 0;
    while i < chars.len()
        invariant
            i <= chars@.len(),
            r@ == chars@.take(i as int),
        decreases chars@.len() - i,
    {
        r.push(chars[i]);
        i += 1;
    }
    r
}

/// A copy of `chars`.
pub fn copy_chars(chars: &[char]) -> (r: Vec<char>)
    ensures
        r@ == chars@,
{
    let mut r: Vec<char> = Vec::new();
    append_chars(&mut r, chars);
    r
}

/// Appends `tail` to `to`.
pub fn append_chars(to: &mut Vec<char>, tail: &[char])
    ensures
        final(to)@ == old(to)@ + tail@,
{
    let mut i: usize = 0;
    while i < tail.len()
        invariant
            i <= tail@.len(),
            to@ == old(to)@ + tail@.take(i as int),
        decreases tail@.len() - i,
    {
        to.push(tail[i]);
        i += 1;
    }
}

fn matches_at(s: &[char], pattern: &[char], i: usize) -> (r: bool)
    requires
        i + pattern@.len() <= s@.len(),
    ensures
        r == occurs_at(s@, pattern@, i as int),
{
    let len: usize = s.len();
    let mut k: usize = 0;
    while k < pattern.len()
        invariant
            len == s@.len(),
            i + pattern@.len() <= len,
            k <= pattern@.len(),
            forall|j: int| 0 <= j < k ==> s@[i + j] == pattern@[j],
        decreases pattern@.len() - k,
    {
        if s[i + k] != pattern[k] {
            assert(s@.subrange(i as int, i + pattern@.len())[k as int] != pattern@[k as int]);
            return false;
        }
        k += 1;
    }
    assert(s@.subrange(i as int, i + pattern@.len()) =~= pattern@);
    true
}

/// The leftmost position of `pattern` in `s`.
pub fn position(s: &[char], pattern: &[char]) -> (r: Option<usize>)
    ensures
        match r {
            Some(i) => find(s@, pattern@) == Some(i as int) && first_at(s@, pattern@, i as int),
            None => find(s@, pattern@) is None,
        },
{
    if pattern.len() > s.len() {
        assert forall|i: int| !first_at(s@, pattern@, i) by {}
        return None;
    }
    let last: usize = s.len() - pattern.len();
    let mut i: usize = 0;
    loop
        invariant
            last == s@.len() - pattern@.len(),
            i <= last,
            forall|j: int| 0 <= j < i ==> !occurs_at(s@, pattern@, j),
        decreases last - i,
    {
        if matches_at(s, pattern, i) {
            proof {
                find_is_first(s@, pattern@, i as int);
            }
            return Some(i);
        }
        if i == last {
            assert forall|j: int| !first_at(s@, pattern@, j) by {
                if occurs_at(s@, pattern@, j) {
                    assert(j <= last);
                }
            }
            return None;
        }
        i += 1;
    }
}

/// `pattern` stands somewhere in `s`.
pub fn contains(s: &str, pattern: &str) -> (r: bool)
    ensures
        r == occurs(s@, pattern@),
{
    let s_chars = chars_of(s);
    let p_chars = chars_of(pattern);
    proof {
        find_none(s@, pattern@);
    }
    position(s_chars.as_slice(), p_chars.as_slice()).is_some()
}

/// `s` starts with `prefix`.
pub fn starts_with(s: &[char], prefix: &[char]) -> (r: bool)
    ensures
        r == occurs_at(s@, prefix@, 0),
{
    if prefix.len() > s.len() {
        false
    } else {
        matches_at(s, prefix, 0)
    }
}

/// The two texts are the same.
pub fn same(a: &[char], b: &[char]) -> (r: bool)
    ensures
        r == (a@ == b@),
{
    if a.len() != b.len() {
        return false;
    }
    let r = matches_at(a, b, 0);
    assert(a@.subrange(0, b@.len() as int) =~= a@);
    r
}

/// The two strings are the same.
pub fn same_str(a: &str, b: &str) -> (r: bool)
    ensures
        r == (a@ == b@),
{
    let a_chars = chars_of(a);
    let b_chars = chars_of(b);
    same(a_chars.as_slice(), b_chars.as_slice())
}

/// The pieces of `s` between the occurrences of `separator`.
pub fn split_on(s: &[char], separator: &[char]) -> (r: Vec<Vec<char>>)
    requires
        separator@.len() > 0,
    ensures
        pieces(r@) == split(s@, separator@),
        r@.len() > 0,
{
    let mut r: Vec<Vec<char>> = Vec::new();
    let mut rest: &[char] = s;
    loop
        invariant
            separator@.len() > 0,
            pieces(r@) + split(rest@, separator@) == split(s@, separator@),
        decreases rest@.len(),
    {
        match position(rest, separator) {
            None => {
                let ghost before = pieces(r@);
                r.push(copy_chars(rest));
                assert(pieces(r@) =~= before + seq![rest@]);
                return r;
            },
            Some(i) => {
                let ghost before = pieces(r@);
                let piece = copy_chars(slice_subrange(rest, 0, i));
                let len: usize = rest.len();
                let tail = slice_subrange(rest, i + separator.len(), len);
                assert(piece@ =~= rest@.take(i as int));
                assert(tail@ =~= rest@.skip(i + separator@.len()));
                r.push(piece);
                assert(pieces(r@) =~= before + seq![rest@.take(i as int)]);
                assert(pieces(r@) + split(tail@, separator@) =~= before + split(
                    rest@,
                    separator@,
                ));
                rest = tail;
            },
        }
    }
}

/// `s` with every occurrence of `from` replaced by `to`.
pub fn replace_all(s: &[char], from: &[char], to: &[char]) -> (r: Vec<char>)
    requires
        from@.len() > 0,
    ensures
        r@ == replace(s@, from@, to@),
{
    let mut r: Vec<char> = Vec::new();
    let mut rest: &[char] = s;
    loop
        invariant
            from@.len() > 0,
            r@ + replace(rest@, from@, to@) == replace(s@, from@, to@),
        decreases rest@.len(),
    {
        match position(rest, from) {
            None => {
                append_chars(&mut r, rest);
                return r;
            },
            Some(i) => {
                let ghost before = r@;
                let head = slice_subrange(rest, 0, i);
                let len: usize = rest.len();
                let tail = slice_subrange(rest, i + from.len(), len);
                assert(head@ =~= rest@.take(i as int));
                assert(tail@ =~= rest@.skip(i + from@.len()));
                append_chars(&mut r, head);
                append_chars(&mut r, to);
                assert(r@ + replace(tail@, from@, to@) =~= before + replace(rest@, from@, to@));
                rest = tail;
            },
        }
    }
}

/// `s` without the occurrences of `prefix` that it starts with.
pub fn strip_prefixes<'a>(s: &'a [char], prefix: &[char]) -> (r: &'a [char])
    requires
        prefix@.len() > 0,
    ensures
        r@ == without_prefixes(s@, prefix@),
{
    let mut rest: &'a [char] = s;
    while starts_with(rest, prefix)
        invariant
            prefix@.len() > 0,
            without_prefixes(rest@, prefix@) == without_prefixes(s@, prefix@),
        decreases rest@.len(),
    {
        let tail = slice_subrange(rest, prefix.len(), rest.len());
        assert(tail@ =~= rest@.skip(prefix@.len() as int));
        rest = tail;
    }
    rest
}

/// White space, as `char::is_whitespace` has it.
pub fn is_white_space(c: char) -> (r: bool)
    ensures
        r == is_white(c),
{
    ('\u{9}' <= c && c <= '\u{d}') || c == '\u{20}' || c == '\u{85}' || c == '\u{a0}' || c
        == '\u{1680}' || ('\u{2000}' <= c && c <= '\u{200a}') || c == '\u{2028}' || c == '\u{2029}'
        || c == '\u{202f}' || c == '\u{205f}' || c == '\u{3000}'
}

/// `s` without white space at either end.
pub fn trimmed(s: &[char]) -> (r: &[char])
    ensures
        r@ == trim(s@),
{
    let mut rest: &[char] = s;
    while rest.len() > 0 && is_white_space(rest[0])
        invariant
            trim_start(rest@, white_space()) == trim_start(s@, white_space()),
        decreases rest@.len(),
    {
        let tail = slice_subrange(rest, 1, rest.len());
        assert(tail@ =~= rest@.skip(1));
        rest = tail;
    }
    let ghost middle = rest@;
    while rest.len() > 0 && is_white_space(rest[rest.len() - 1])
        invariant
            trim_end(rest@, white_space()) == trim_end(middle, white_space()),
        decreases rest@.len(),
    {
        let head = slice_subrange(rest, 0, rest.len() - 1);
        assert(head@ =~= rest@.take(rest@.len() - 1));
        rest = head;
    }
    rest
}

/// `s` without the occurrences of `c` that it ends with.
pub fn trimmed_end_of(s: &[char], c: char) -> (r: &[char])
    ensures
        r@ == trim_end(s@, only(c)),
{
    let mut rest: &[char] = s;
    while rest.len() > 0 && rest[rest.len() - 1] == c
        invariant
            trim_end(rest@, only(c)) == trim_end(s@, only(c)),
        decreases rest@.len(),
    {
        let head = slice_subrange(rest, 0, rest.len() - 1);
        assert(head@ =~= rest@.take(rest@.len() - 1));
        rest = head;
    }
    rest
}

/// `s` without the occurrences of `c` that it starts with.
pub fn trimmed_start_of(s: &[char], c: char) -> (r: &[char])
    ensures
        r@ == trim_start(s@, only(c)),
{
    let mut rest: &[char] = s;
    while rest.len() > 0 && rest[0] == c
        invariant
            trim_start(rest@, only(c)) == trim_start(s@, only(c)),
        decreases rest@.len(),
    {
        let tail = slice_subrange(rest, 1, rest.len());
        assert(tail@ =~= rest@.skip(1));
        rest = tail;
    }
    rest
}

/// `s` without the occurrences of `c` at either end.
pub fn trimmed_of(s: &[char], c: char) -> (r: &[char])
    ensures
        r@ == trim_char(s@, c),
{
    trimmed_end_of(trimmed_start_of(s, c), c)
}

/// `s` without white space at either end.
pub fn trimmed_str(s: &str) -> (r: String)
    ensures
        r@ == trim(s@),
{
    let chars = chars_of(s);
    string_of(trimmed(chars.as_slice()))
}

/// The last position of `c` in `s`.
pub fn last_position(s: &[char], c: char) -> (r: Option<usize>)
    ensures
        match r {
            Some(i) => last_index(s@, c) == Some(i as int) && i < s@.len(),
            None => last_index(s@, c) is None,
        },
{
    let mut n: usize = s.len();
    assert(s@.take(n as int) =~= s@);
    while n > 0
        invariant
            n <= s@.len(),
            last_index(s@.take(n as int), c) == last_index(s@, c),
        decreases n,
    {
        if s[n - 1] == c {
            return Some(n - 1);
        }
        assert(s@.take(n as int).take(n - 1) =~= s@.take(n - 1));
        n -= 1;
    }
    None
}

/// The lines of `s`.
pub fn lines_of(s: &[char]) -> (r: Vec<Vec<char>>)
    ensures
        pieces(r@) == lines(s@),
{
    let mut r: Vec<Vec<char>> = Vec::new();
    let mut rest: &[char] = s;
    let line_feed: Vec<char> = vec!['\n'];
    assert(line_feed@ =~= seq!['\n']);
    while rest.len() > 0
        invariant
            line_feed@ == seq!['\n'],
            pieces(r@) + lines(rest@) == lines(s@),
        decreases rest@.len(),
    {
        let ghost before = pieces(r@);
        match position(rest, line_feed.as_slice()) {
            None => {
                r.push(copy_chars(rest));
                assert(pieces(r@) =~= before + seq![rest@]);
                return r;
            },
            Some(i) => {
                let end: usize = if i > 0 && rest[i - 1] == '\r' {
                    i - 1
                } else {
                    i
                };
                let line = copy_chars(slice_subrange(rest, 0, end));
                let tail = slice_subrange(rest, i + 1, rest.len());
                assert(line@ =~= strip_return(rest@.take(i as int)));
                assert(tail@ =~= rest@.skip(i + 1));
                r.push(line);
                assert(pieces(r@) =~= before + seq![strip_return(rest@.take(i as int))]);
                assert(pieces(r@) + lines(tail@) =~= before + lines(rest@));
                rest = tail;
            },
        }
    }
    r
}

// ---------------------------------------------------------------------------
// What the operations are for
// ---------------------------------------------------------------------------

/// The pieces with `separator` between them.
pub open spec fn rejoined(pieces: Seq<Seq<char>>, separator: Seq<char>) -> Seq<char>
    decreases pieces.len(),
{
    if pieces.len() == 0 {
        seq![]
    } else if pieces.len() == 1 {
        pieces[0]
    } else {
        pieces[0] + separator + rejoined(pieces.skip(1), separator)
    }
}

/// `c` stands nowhere in `s`.
pub open spec fn lacks(s: Seq<char>, c: char) -> bool {
    forall|i: int| 0 <= i < s.len() ==> #[trigger] s[i] != c
}

/// A pattern stands at a position where the characters from there on are those of the
/// pattern.
pub proof fn occurrence_is_a_match(s: Seq<char>, pattern: Seq<char>, i: int)
    ensures
        occurs_at(s, pattern, i) <==> 0 <= i && i + pattern.len() <= s.len() && forall|k: int|
            0 <= k < pattern.len() ==> #[trigger] pattern[k] == s[i + k],
{
    if 0 <= i && i + pattern.len() <= s.len() {
        let part = s.subrange(i, i + pattern.len());
        if part == pattern {
            assert forall|k: int| 0 <= k < pattern.len() implies #[trigger] pattern[k] == s[i
                + k] by {
                assert(part[k] == s[i + k]);
            }
        }
        if forall|k: int| 0 <= k < pattern.len() ==> #[trigger] pattern[k] == s[i + k] {
            assert(part =~= pattern);
        }
    }
}

/// A single character that stands nowhere in `s` does not occur in it.
pub proof fn lacking_is_no_occurrence(s: Seq<char>, c: char)
    ensures
        lacks(s, c) <==> !occurs(s, seq![c]),
        lacks(s, c) <==> find(s, seq![c]) is None,
{
    find_none(s, seq![c]);
    if occurs(s, seq![c]) {
        let i = choose|i: int| occurs_at(s, seq![c], i);
        occurrence_is_a_match(s, seq![c], i);
        assert(seq![c][0] == s[i + 0]);
    }
    if !lacks(s, c) {
        let i = choose|i: int| 0 <= i < s.len() && #[trigger] s[i] == c;
        assert(s.subrange(i, i + 1) =~= seq![c]);
        assert(occurs_at(s, seq![c], i));
    }
}

/// A text with `c` behind it, and anything behind that, has `c` first where that text
/// ends.
pub proof fn first_behind(head: Seq<char>, c: char, tail: Seq<char>)
    requires
        lacks(head, c),
    ensures
        find(head + seq![c] + tail, seq![c]) == Some(head.len() as int),
        (head + seq![c] + tail).take(head.len() as int) == head,
        (head + seq![c] + tail).skip(head.len() as int + 1) == tail,
{
    let s = head + seq![c] + tail;
    assert(s.subrange(head.len() as int, head.len() as int + 1) =~= seq![c]);
    assert forall|j: int| 0 <= j < head.len() implies !occurs_at(s, seq![c], j) by {
        assert(s.subrange(j, j + 1)[0] == head[j]);
    }
    assert(first_at(s, seq![c], head.len() as int));
    find_is_first(s, seq![c], head.len() as int);
    assert(s.take(head.len() as int) =~= head);
    assert(s.skip(head.len() as int + 1) =~= tail);
}

/// Splitting at a character gives back the pieces that were joined with it.
pub proof fn splitting_undoes_joining(pieces: Seq<Seq<char>>, c: char)
    requires
        pieces.len() > 0,
        forall|i: int| 0 <= i < pieces.len() ==> lacks(#[trigger] pieces[i], c),
    ensures
        split(rejoined(pieces, seq![c]), seq![c]) == pieces,
    decreases pieces.len(),
{
    let s = rejoined(pieces, seq![c]);
    assert(lacks(pieces[0], c));
    if pieces.len() == 1 {
        lacking_is_no_occurrence(s, c);
        assert(split(s, seq![c]) =~= pieces);
    } else {
        let rest = pieces.skip(1);
        assert forall|i: int| 0 <= i < rest.len() implies lacks(#[trigger] rest[i], c) by {
            assert(rest[i] == pieces[i + 1]);
        }
        splitting_undoes_joining(rest, c);
        first_behind(pieces[0], c, rejoined(rest, seq![c]));
        assert(split(s, seq![c]) =~= seq![pieces[0]] + rest);
        assert(seq![pieces[0]] + rest =~= pieces);
    }
}

/// Joining the pieces of a text gives back the text, and no piece holds the separator.
pub proof fn joining_undoes_splitting(s: Seq<char>, separator: Seq<char>)
    requires
        separator.len() > 0,
    ensures
        split(s, separator).len() > 0,
        rejoined(split(s, separator), separator) == s,
        forall|i: int|
            0 <= i < split(s, separator).len() ==> !occurs(
                #[trigger] split(s, separator)[i],
                separator,
            ),
    decreases s.len(),
{
    find_none(s, separator);
    match find(s, separator) {
        None => {},
        Some(i) => {
            assert(first_at(s, separator, i));
            let tail = s.skip(i + separator.len());
            joining_undoes_splitting(tail, separator);
            let all = split(s, separator);
            assert(all.skip(1) =~= split(tail, separator));
            assert(s.subrange(i, i + separator.len()) == separator);
            assert(s =~= s.take(i) + separator + tail);
            assert forall|k: int| 0 <= k < all.len() implies !occurs(
                #[trigger] all[k],
                separator,
            ) by {
                if k == 0 {
                    if occurs(s.take(i), separator) {
                        let j = choose|j: int| occurs_at(s.take(i), separator, j);
                        assert(s.take(i).subrange(j, j + separator.len()) =~= s.subrange(
                            j,
                            j + separator.len(),
                        ));
                        assert(occurs_at(s, separator, j));
                    }
                } else {
                    assert(all[k] == split(tail, separator)[k - 1]);
                }
            }
        },
    }
}

/// Replacing a text joins the pieces between its occurrences with the new one.
pub proof fn replacing_joins_the_pieces(s: Seq<char>, from: Seq<char>, to: Seq<char>)
    requires
        from.len() > 0,
    ensures
        replace(s, from, to) == rejoined(split(s, from), to),
    decreases s.len(),
{
    match find(s, from) {
        None => {},
        Some(i) => {
            assert(first_at(s, from, i));
            let tail = s.skip(i + from.len());
            replacing_joins_the_pieces(tail, from, to);
            joining_undoes_splitting(tail, from);
            assert(split(s, from).skip(1) =~= split(tail, from));
        },
    }
}

/// `s` from `a` to `b` is what is left without the white space at its ends.
pub open spec fn is_core(s: Seq<char>, a: int, b: int) -> bool {
    &&& 0 <= a <= b <= s.len()
    &&& forall|i: int| 0 <= i < a || b <= i < s.len() ==> is_white(#[trigger] s[i])
    &&& a < b ==> !is_white(s[a]) && !is_white(s[b - 1])
}

/// Trimming drops white space at the ends, all of it, and nothing else.
pub proof fn trimming_drops_white_space(s: Seq<char>)
    ensures
        exists|a: int, b: int| #[trigger] is_core(s, a, b) && trim(s) == s.subrange(a, b),
{
    let a = trimmed_from(s, white_space());
    let middle = s.skip(a);
    let n = trimmed_to(middle, white_space());
    let b = a + n;
    assert(trim(s) =~= s.subrange(a, b));
    assert forall|i: int| 0 <= i < a || b <= i < s.len() implies is_white(#[trigger] s[i]) by {
        if i < a {
            assert(white_space()(s[i]));
        } else {
            assert(white_space()(middle[i - a]));
        }
    }
    if a < b {
        assert(!white_space()(s[a]));
        assert(!white_space()(middle[n - 1]));
    }
    assert(is_core(s, a, b));
}

/// How many characters of `set` a text starts with.
proof fn trimmed_from(s: Seq<char>, set: spec_fn(char) -> bool) -> (a: int)
    ensures
        0 <= a <= s.len(),
        trim_start(s, set) == s.skip(a),
        forall|i: int| 0 <= i < a ==> set(#[trigger] s[i]),
        a < s.len() ==> !set(s[a]),
    decreases s.len(),
{
    if s.len() > 0 && set(s[0]) {
        let rest = s.skip(1);
        let n = trimmed_from(rest, set);
        assert(rest.skip(n) =~= s.skip(n + 1));
        assert forall|i: int| 0 <= i < n + 1 implies set(#[trigger] s[i]) by {
            if i > 0 {
                assert(set(rest[i - 1]));
            }
        }
        if n + 1 < s.len() {
            assert(!set(rest[n]));
        }
        n + 1
    } else {
        assert(s.skip(0) =~= s);
        0
    }
}

/// How many characters are left of a text without those of `set` that it ends with.
proof fn trimmed_to(s: Seq<char>, set: spec_fn(char) -> bool) -> (n: int)
    ensures
        0 <= n <= s.len(),
        trim_end(s, set) == s.take(n),
        forall|i: int| n <= i < s.len() ==> set(#[trigger] s[i]),
        n > 0 ==> !set(s[n - 1]),
    decreases s.len(),
{
    if s.len() > 0 && set(s[s.len() - 1]) {
        let front = s.take(s.len() - 1);
        let n = trimmed_to(front, set);
        assert(front.take(n) =~= s.take(n));
        assert forall|i: int| n <= i < s.len() implies set(#[trigger] s[i]) by {
            if i < s.len() - 1 {
                assert(set(front[i]));
            }
        }
        if n > 0 {
            assert(!set(front[n - 1]));
        }
        n
    } else {
        assert(s.take(s.len() as int) =~= s);
        s.len() as int
    }
}

/// A text that has no white space at its ends stays as it is, also with a space behind
/// it.
pub proof fn trimming_keeps_the_core(s: Seq<char>)
    requires
        s.len() > 0 ==> !is_white(s[0]) && !is_white(s[s.len() - 1]),
    ensures
        trim(s) == s,
        trim(s + seq![' ']) == s,
        trim(seq![' '] + s + seq![' ']) == s,
        trim(seq![' '] + s) == s,
{
    let n = s.len() as int;
    core_is_trimmed(s, 0, n);
    core_is_trimmed(s + seq![' '], 0, n);
    core_is_trimmed(seq![' '] + s + seq![' '], 1, n + 1);
    core_is_trimmed(seq![' '] + s, 1, n + 1);
    assert(s.subrange(0, n) =~= s);
    assert((s + seq![' ']).subrange(0, n) =~= s);
    assert((seq![' '] + s + seq![' ']).subrange(1, n + 1) =~= s);
    assert((seq![' '] + s).subrange(1, n + 1) =~= s);
}

/// What is left without the white space at the ends is what trimming gives.
proof fn core_is_trimmed(s: Seq<char>, a: int, b: int)
    requires
        is_core(s, a, b),
    ensures
        trim(s) == s.subrange(a, b),
{
    trimming_drops_white_space(s);
    let (c, d) = choose|c: int, d: int| #[trigger] is_core(s, c, d) && trim(s) == s.subrange(c, d);
    if a < b {
        if c == d {
            assert(is_white(s[a]));
        } else {
            if c < a {
                assert(is_white(s[c]));
            }
            if a < c {
                assert(is_white(s[a]));
            }
            if d < b {
                assert(is_white(s[b - 1]));
            }
            if b < d {
                assert(is_white(s[d - 1]));
            }
        }
    } else if c < d {
        assert(is_white(s[c]));
    } else {
        assert(s.subrange(a, b) =~= s.subrange(c, d));
    }
}

/// Blanks, tabs and line ends are white space; what is printed in ASCII and Chinese
/// characters are not.
pub proof fn white_space_is_not_printed(c: char)
    ensures
        c == ' ' || c == '\t' || c == '\n' || c == '\r' ==> is_white(c),
        '!' <= c <= '~' || '\u{4e00}' <= c <= '\u{9fff}' ==> !is_white(c),
{
}

/// Lines that were written with either line end are read back.
pub proof fn lines_are_read_back(list: Seq<Seq<char>>, windows: bool)
    requires
        list.len() > 0,
        list.last().len() > 0,
        forall|i: int| 0 <= i < list.len() ==> lacks(#[trigger] list[i], '\n') && lacks(list[i], '\r'),
    ensures
        lines(
            rejoined(
                list,
                if windows {
                    seq!['\r', '\n']
                } else {
                    seq!['\n']
                },
            ),
        ) == list,
    decreases list.len(),
{
    let end = if windows {
        seq!['\r', '\n']
    } else {
        seq!['\n']
    };
    let s = rejoined(list, end);
    assert(lacks(list[0], '\n') && lacks(list[0], '\r'));
    if list.len() == 1 {
        lacking_is_no_occurrence(s, '\n');
        assert(lines(s) =~= list);
    } else {
        let rest = list.skip(1);
        assert forall|i: int| 0 <= i < rest.len() implies lacks(#[trigger] rest[i], '\n') && lacks(
            rest[i],
            '\r',
        ) by {
            assert(rest[i] == list[i + 1]);
        }
        assert(rest.last() == list.last());
        lines_are_read_back(rest, windows);
        let head = if windows {
            list[0] + seq!['\r']
        } else {
            list[0]
        };
        assert(s =~= head + seq!['\n'] + rejoined(rest, end));
        first_behind(head, '\n', rejoined(rest, end));
        if windows {
            assert(head.take(head.len() - 1) =~= list[0]);
        } else if head.len() > 0 {
            assert(head[head.len() - 1] != '\r');
        }
        assert(strip_return(head) == list[0]);
        assert(lines(s) =~= seq![list[0]] + rest);
        assert(seq![list[0]] + rest =~= list);
    }
}

/// The last position of a character has it, and none behind it has.
pub proof fn last_index_is_last(s: Seq<char>, c: char)
    ensures
        match last_index(s, c) {
            Some(i) => 0 <= i < s.len() && s[i] == c && lacks(s.skip(i + 1), c),
            None => lacks(s, c),
        },
    decreases s.len(),
{
    if s.len() > 0 && s[s.len() - 1] != c {
        let front = s.take(s.len() - 1);
        last_index_is_last(front, c);
        match last_index(front, c) {
            Some(i) => {
                assert forall|k: int| 0 <= k < s.skip(i + 1).len() implies #[trigger] s.skip(
                    i + 1,
                )[k] != c by {
                    if k < front.skip(i + 1).len() {
                        assert(front.skip(i + 1)[k] == s.skip(i + 1)[k]);
                    }
                }
            },
            None => {
                assert forall|k: int| 0 <= k < s.len() implies #[trigger] s[k] != c by {
                    if k < front.len() {
                        assert(front[k] == s[k]);
                    }
                }
            },
        }
    }
}

/// The last position of a character behind which it does not stand again.
pub proof fn last_behind(head: Seq<char>, c: char, tail: Seq<char>)
    requires
        lacks(tail, c),
    ensures
        last_index(head + seq![c] + tail, c) == Some(head.len() as int),
        (head + seq![c] + tail).take(head.len() as int) == head,
        (head + seq![c] + tail).skip(head.len() as int + 1) == tail,
{
    let s = head + seq![c] + tail;
    last_index_is_last(s, c);
    assert(s[head.len() as int] == c);
    match last_index(s, c) {
        Some(i) => {
            if i < head.len() {
                assert(s.skip(i + 1)[head.len() - i - 1] == c);
            }
            if i > head.len() {
                assert(s[i] == tail[i - head.len() - 1]);
            }
        },
        None => {},
    }
    assert(s.take(head.len() as int) =~= head);
    assert(s.skip(head.len() as int + 1) =~= tail);
}

/// What strings say is what their characters are, one by one.
pub proof fn strings_say_their_characters(
    list: Seq<String>,
    pieces: Seq<Vec<char>>,
    s: String,
    r: Result<String, String>,
)
    ensures
        texts(list).len() == list.len(),
        forall|i: int| 0 <= i < list.len() ==> #[trigger] texts(list)[i] == list[i]@,
        self::pieces(pieces).len() == pieces.len(),
        forall|i: int|
            0 <= i < pieces.len() ==> #[trigger] self::pieces(pieces)[i] == pieces[i]@,
        text_option(Some(s)) == Some(s@),
        text_option(None) is None,
        match r {
            Ok(t) => text_result(r) == Ok::<Seq<char>, Seq<char>>(t@),
            Err(e) => text_result(r) == Err::<Seq<char>, Seq<char>>(e@),
        },
{
}

/// `pattern` is the part of `s` that begins at `i`.
pub open spec fn is_part(s: Seq<char>, pattern: Seq<char>, i: int) -> bool {
    0 <= i && i + pattern.len() <= s.len() && s.take(i + pattern.len()).skip(i) == pattern
}

/// A pattern occurs in a text where the text has it between two other parts, and only there.
pub proof fn occurrences_are_parts(head: Seq<char>, pattern: Seq<char>, tail: Seq<char>, s: Seq<char>)
    ensures
        occurs(head + pattern + tail, pattern),
        occurs_at(pattern + tail, pattern, 0),
        occurs(s, pattern) <==> exists|i: int| is_part(s, pattern, i),
{
    let whole = head + pattern + tail;
    assert(whole.subrange(head.len() as int, head.len() as int + pattern.len()) =~= pattern);
    assert(occurs_at(whole, pattern, head.len() as int));
    assert((pattern + tail).subrange(0, pattern.len() as int) =~= pattern);
    assert forall|i: int| occurs_at(s, pattern, i) == is_part(s, pattern, i) by {
        if 0 <= i && i + pattern.len() <= s.len() {
            assert(s.take(i + pattern.len()).skip(i) =~= s.subrange(i, i + pattern.len()));
        }
    }
    if occurs(s, pattern) {
        let i = choose|i: int| occurs_at(s, pattern, i);
        assert(is_part(s, pattern, i));
    }
    if exists|i: int| is_part(s, pattern, i) {
        let i = choose|i: int| is_part(s, pattern, i);
        assert(occurs_at(s, pattern, i));
    }
}

/// ASCII letters and digits are those from `0` to `9`, from `a` to `z` and from `A` to `Z`.
pub proof fn letters_and_digits_are_ranges(c: char)
    ensures
        is_ascii_alphanumeric(c) <==> ('0' <= c && c <= '9') || ('a' <= c && c <= 'z') || ('A' <= c
            && c <= 'Z'),
{
}

/// Only the given character is trimmed, all of it at that end, and nothing of what it
/// encloses.
pub proof fn trimming_one_character_keeps_the_rest(
    before: Seq<char>,
    core: Seq<char>,
    after: Seq<char>,
    c: char,
)
    requires
        forall|i: int| 0 <= i < before.len() ==> before[i] == c,
        forall|i: int| 0 <= i < after.len() ==> after[i] == c,
        core.len() > 0 ==> core[0] != c && core[core.len() - 1] != c,
    ensures
        core.len() > 0 ==> trim_start(before + core, only(c)) == core,
        trim_start(before, only(c)).len() == 0,
        trim_end(core + after, only(c)) == core,
        core.len() > 0 ==> trim_char(before + core + after, c) == core,
        trim_char(before, c).len() == 0,
{
    start_is_trimmed(before, core, c);
    if core.len() > 0 {
        assert((core + after)[0] == core[0]);
        start_is_trimmed(before, core + after, c);
    }
    start_is_trimmed(before, seq![], c);
    end_is_trimmed(core, after, c);
    assert(before + core + after =~= before + (core + after));
    assert(before + seq![] =~= before);
}

proof fn start_is_trimmed(before: Seq<char>, rest: Seq<char>, c: char)
    requires
        forall|i: int| 0 <= i < before.len() ==> before[i] == c,
        rest.len() > 0 ==> rest[0] != c,
    ensures
        trim_start(before + rest, only(c)) == rest,
    decreases before.len(),
{
    let whole = before + rest;
    if before.len() == 0 {
        assert(whole =~= rest);
    } else {
        let tail = before.skip(1);
        start_is_trimmed(tail, rest, c);
        assert(whole[0] == before[0]);
        assert(only(c)(whole[0]));
        assert(whole.skip(1) =~= tail + rest);
    }
}

proof fn end_is_trimmed(rest: Seq<char>, after: Seq<char>, c: char)
    requires
        forall|i: int| 0 <= i < after.len() ==> after[i] == c,
        rest.len() > 0 ==> rest[rest.len() - 1] != c,
    ensures
        trim_end(rest + after, only(c)) == rest,
    decreases after.len(),
{
    let whole = rest + after;
    if after.len() == 0 {
        assert(whole =~= rest);
    } else {
        let front = after.take(after.len() - 1);
        end_is_trimmed(rest, front, c);
        assert(whole[whole.len() - 1] == after[after.len() - 1]);
        assert(only(c)(whole[whole.len() - 1]));
        assert(whole.take(whole.len() - 1) =~= rest + front);
    }
}

/// A prefix is taken off as often as it stands there, and nothing else is.
pub proof fn prefixes_are_taken_off(s: Seq<char>, prefix: Seq<char>)
    requires
        prefix.len() > 0,
    ensures
        without_prefixes(prefix + s, prefix) == without_prefixes(s, prefix),
        !occurs_at(s, prefix, 0) ==> without_prefixes(s, prefix) == s,
{
    let whole = prefix + s;
    assert(whole.subrange(0, prefix.len() as int) =~= prefix);
    assert(whole.skip(prefix.len() as int) =~= s);
}

/// White space is what Unicode takes for it.
pub proof fn white_space_is_that_of_unicode(c: char)
    ensures
        is_white(c) <==> ('\u{9}' <= c && c <= '\u{d}') || c == ' ' || c == '\u{85}' || c
            == '\u{a0}' || c == '\u{1680}' || ('\u{2000}' <= c && c <= '\u{200a}') || c
            == '\u{2028}' || c == '\u{2029}' || c == '\u{202f}' || c == '\u{205f}' || c
            == '\u{3000}',
{
}

} // verus!
