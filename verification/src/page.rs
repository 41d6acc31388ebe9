//! Pages rendered from templates.
use vstd::prelude::*;
use vstd::slice::slice_subrange;

use crate::context;
use crate::err::{CustomError, ErrorView};
use crate::json;
use crate::json::JsonView;
use crate::text;
use crate::text::{chars_of, contains, position, same};

verus! {

/// The page that a template gives with the given fields; nothing where the template
/// is refused or fails on them.
pub uninterp spec fn rendered(template: Seq<char>, fields: Map<Seq<char>, JsonView>) -> Option<
    Seq<char>,
>;

/// The template is well formed.
pub uninterp spec fn well_formed(template: Seq<char>) -> bool;

// ---------------------------------------------------------------------------
// The expressions of a template
// ---------------------------------------------------------------------------

/// Where a character of a template stands.
pub enum Place {
    /// Between the tags.
    Outside,
    /// In a comment.
    Comment,
    /// In a tag that ends with this character and a closing brace.
    Tag(char),
    /// In a string of such a tag, which ends with the second character.
    Quoted(char, char),
}

/// The characters of the tags of a template. A quotation mark stands for each string, and
/// a space for the end of each tag.
pub open spec fn tag_chars(s: Seq<char>, place: Place) -> Seq<char>
    decreases s.len(),
{
    if s.len() == 0 {
        seq![]
    } else {
        match place {
            Place::Outside => if text::occurs_at(s, seq!['{', '{'], 0) {
                tag_chars(s.skip(2), Place::Tag('}'))
            } else if text::occurs_at(s, seq!['{', '%'], 0) {
                tag_chars(s.skip(2), Place::Tag('%'))
            } else if text::occurs_at(s, seq!['{', '#'], 0) {
                tag_chars(s.skip(2), Place::Comment)
            } else {
                tag_chars(s.skip(1), Place::Outside)
            },
            Place::Comment => if text::occurs_at(s, seq!['#', '}'], 0) {
                tag_chars(s.skip(2), Place::Outside)
            } else {
                tag_chars(s.skip(1), Place::Comment)
            },
            Place::Tag(end) => if text::occurs_at(s, seq![end, '}'], 0) {
                seq![' '] + tag_chars(s.skip(2), Place::Outside)
            } else if s[0] == '"' || s[0] == '\'' || s[0] == '`' {
                seq!['"'] + tag_chars(s.skip(1), Place::Quoted(end, s[0]))
            } else {
                seq![s[0]] + tag_chars(s.skip(1), place)
            },
            Place::Quoted(end, quote) => if s[0] == quote {
                tag_chars(s.skip(1), Place::Tag(end))
            } else if s[0] == '\\' && s.len() > 1 {
                tag_chars(s.skip(2), place)
            } else {
                tag_chars(s.skip(1), place)
            },
        }
    }
}

/// The template may hold raw text.
pub open spec fn may_be_raw(template: Seq<char>) -> bool {
    text::occurs(template, "endraw"@)
}

/// The expressions of a template: the characters of its tags, or all of its characters
/// where it may hold raw text.
pub open spec fn expressions(template: Seq<char>) -> Seq<char> {
    if may_be_raw(template) {
        template
    } else {
        tag_chars(template, Place::Outside)
    }
}

/// A character of a name or of a whole number.
pub open spec fn is_word_char(c: char) -> bool {
    text::is_ascii_alphanumeric(c) || c == '_'
}

/// White space between the words of an expression.
pub open spec fn is_gap(c: char) -> bool {
    c == ' ' || c == '\t' || c == '\n' || c == '\u{c}' || c == '\r'
}

/// The word that `s` starts with.
pub open spec fn word(s: Seq<char>) -> Seq<char>
    decreases s.len(),
{
    if s.len() > 0 && is_word_char(s[0]) {
        seq![s[0]] + word(s.skip(1))
    } else {
        seq![]
    }
}

/// The word that `s` ends with.
pub open spec fn last_word(s: Seq<char>) -> Seq<char>
    decreases s.len(),
{
    if s.len() > 0 && is_word_char(s.last()) {
        last_word(s.drop_last()).push(s.last())
    } else {
        seq![]
    }
}

/// `s` without the white space that it starts with.
pub open spec fn past_gaps(s: Seq<char>) -> Seq<char>
    decreases s.len(),
{
    if s.len() > 0 && is_gap(s[0]) {
        past_gaps(s.skip(1))
    } else {
        s
    }
}

/// The word `name` stands in `s`.
pub open spec fn has_word(s: Seq<char>, name: Seq<char>) -> bool {
    exists|i: int|
        0 <= i < s.len() && (i == 0 || !is_word_char(s[i - 1])) && word(#[trigger] s.skip(i))
            == name
}

/// An expression goes through the filter `name`.
pub open spec fn applies(s: Seq<char>, name: Seq<char>) -> bool {
    exists|i: int|
        0 <= i < s.len() && #[trigger] s[i] == '|' && word(past_gaps(s.skip(i + 1))) == name
}

/// What the template gives is the same in every process and on every machine: no
/// expression follows the order of a hash map, as the `group_by` filter and the dump of
/// the whole context do, nor may take a power of a fraction, whose last digit the machine
/// decides, as `**` and the precision of the `round` filter do.
pub open spec fn is_determined(template: Seq<char>) -> bool {
    let inside = expressions(template);
    &&& !applies(inside, "group_by"@)
    &&& !has_word(inside, "__tera_context"@)
    &&& !text::occurs(inside, "**"@)
    &&& !(applies(inside, "round"@) && has_word(inside, "precision"@))
}

/// A word that an expression may follow.
pub open spec fn is_operator(name: Seq<char>) -> bool {
    ||| name == "in"@
    ||| name == "and"@
    ||| name == "or"@
    ||| name == "not"@
    ||| name == "if"@
    ||| name == "elif"@
    ||| name == "else"@
}

/// A bracket behind `s` picks an item of a value, and starts no list.
pub open spec fn picks_item(s: Seq<char>) -> bool {
    let name = last_word(s);
    ||| s.len() > 0 && (s.last() == ')' || s.last() == ']' || s.last() == '"' || s.last() == '?')
    ||| name.len() > 0 && !text::is_ascii_digit(name[0]) && !is_operator(name)
}

/// A name that may stand for a list: that of a filter or function that gives one or,
/// where names are given to values, any.
pub open spec fn may_be_list(name: Seq<char>, named: bool) -> bool {
    ||| name == "split"@
    ||| name == "range"@
    ||| name == "keys"@
    ||| name == "values"@
    ||| named && name.len() > 0 && !text::is_ascii_digit(name[0])
}

/// No list stands in `s` up to its first closing bracket or brace.
pub open spec fn is_flat_group(s: Seq<char>, named: bool) -> bool
    decreases s.len(),
{
    if s.len() == 0 || s[0] == '[' || s[0] == '{' {
        false
    } else if s[0] == ']' || s[0] == '}' {
        true
    } else if is_word_char(s[0]) {
        let name = word(s);
        0 < name.len() <= s.len() && !may_be_list(name, named) && is_flat_group(
            s.skip(name.len() as int),
            named,
        )
    } else {
        is_flat_group(s.skip(1), named)
    }
}

/// The template gives names to values: it sets variables or defines components.
pub open spec fn names_values(s: Seq<char>) -> bool {
    has_word(s, "set"@) || has_word(s, "set_global"@) || has_word(s, "component"@)
}

/// At `i` a list or an object starts that may hold a list.
pub open spec fn nests_at(s: Seq<char>, i: int) -> bool {
    &&& s[i] == '{' || (s[i] == '[' && !picks_item(s.take(i)))
    &&& !is_flat_group(s.skip(i + 1), names_values(s))
}

/// With fields that are no lists, an expression may give a list or an object that holds a
/// list: by writing it out, by a spread, by the pairs of an object, by groups, or as the
/// whole context.
pub open spec fn may_nest(s: Seq<char>) -> bool {
    ||| exists|i: int| 0 <= i < s.len() && #[trigger] nests_at(s, i)
    ||| text::occurs(s, "..."@)
    ||| applies(s, "pairs"@)
    ||| applies(s, "group_by"@)
    ||| has_word(s, "__tera_context"@)
}

/// With fields that are no lists, the template hands no list to the `sort` filter whose
/// items are lists. Lists of values of several kinds have no order.
pub open spec fn is_sortable(template: Seq<char>) -> bool {
    applies(expressions(template), "sort"@) ==> !may_be_raw(template) && !may_nest(
        expressions(template),
    )
}

/// The page of a rendering that did not fail.
pub open spec fn page_of(r: Result<String, String>) -> Option<Seq<char>> {
    match r {
        Ok(page) => Some(page@),
        Err(_) => None,
    }
}

/// `tera::Tera::add_raw_template` on a new `tera::Tera`: whether the template is well
/// formed. Of the text of the error nothing is claimed.
#[verifier::external_body]
fn add_template(template: &str) -> (r: Result<(), String>)
    ensures
        r is Ok == well_formed(template@),
{
    let mut tera = tera::Tera::new();
    tera.add_raw_template("template.html", template).map_err(|error| error.to_string())
}

/// `tera::Tera::render` of a template under the name `template.html`, escaped as
/// HTML, with `tera::Context::from_serialize` of the fields. A template that
/// `is_determined` gives the same page for the same fields. Of the text of an error, and
/// of other templates, nothing is claimed. The `sort` filter compares its items with an
/// order that is none on lists of mixed values, on which sorting may panic, so the
/// precondition leaves out the templates that may hand it items that are lists.
#[verifier::external_body]
fn render_template(
    template: &str,
    fields: &serde_json::Map<std::string::String, serde_json::Value>,
) -> (r: Result<String, String>)
    requires
        context::are_scalars(json::fields_of(*fields)),
        is_sortable(template@),
    ensures
        is_determined(template@) ==> page_of(r) == rendered(template@, json::fields_of(*fields)),
{
    let mut tera = tera::Tera::new();
    tera.add_raw_template("template.html", template).map_err(|error| error.to_string())?;
    tera.autoescape_on(vec![".html", ".sql"]);
    let context = tera::Context::from_serialize(fields).map_err(|error| error.to_string())?;
    tera.render("template.html", &context).map_err(|error| error.to_string())
}

/// Refuses a template that is not well formed.
pub fn check_template(template: &str) -> (r: Result<(), CustomError>)
    ensures
        r is Ok == well_formed(template@),
        r matches Err(e) ==> e@ is TeraError,
{
    match add_template(template) {
        Ok(()) => Ok(()),
        Err(message) => Err(CustomError::TeraError(message)),
    }
}

fn push_tag_chars(s: &[char]) -> (r: Vec<char>)
    ensures
        r@ == tag_chars(s@, Place::Outside),
{
    let mut r: Vec<char> = Vec::new();
    let mut rest: &[char] = s;
    let mut place: Place = Place::Outside;
    while rest.len() > 0
        invariant
            r@ + tag_chars(rest@, place) == tag_chars(s@, Place::Outside),
        decreases rest@.len(),
    {
        let ghost before = r@;
        let ghost all = tag_chars(rest@, place);
        let c = rest[0];
        let d: char = if rest.len() > 1 {
            rest[1]
        } else {
            ' '
        };
        proof {
            if rest@.len() > 1 {
                assert(rest@.subrange(0, 2) =~= seq![c, d]);
            }
            assert forall|x: char, y: char| text::occurs_at(rest@, seq![x, y], 0) == (rest@.len()
                > 1 && c == x && d == y) by {
                if rest@.len() > 1 {
                    assert(seq![x, y][0] == x && seq![x, y][1] == y);
                    assert(seq![c, d][0] == c && seq![c, d][1] == d);
                    assert((seq![c, d] =~= seq![x, y]) == (c == x && d == y));
                }
            }
        }
        let pair = rest.len() > 1;
        let mut step: usize = 1;
        let mut kept: Option<char> = None;
        let next: Place = match place {
            Place::Outside => if pair && c == '{' && d == '{' {
                step = 2;
                Place::Tag('}')
            } else if pair && c == '{' && d == '%' {
                step = 2;
                Place::Tag('%')
            } else if pair && c == '{' && d == '#' {
                step = 2;
                Place::Comment
            } else {
                Place::Outside
            },
            Place::Comment => if pair && c == '#' && d == '}' {
                step = 2;
                Place::Outside
            } else {
                Place::Comment
            },
            Place::Tag(end) => if pair && c == end && d == '}' {
                step = 2;
                kept = Some(' ');
                Place::Outside
            } else if c == '"' || c == '\'' || c == '`' {
                kept = Some('"');
                Place::Quoted(end, c)
            } else {
                kept = Some(c);
                Place::Tag(end)
            },
            Place::Quoted(end, quote) => if c == quote {
                Place::Tag(end)
            } else {
                if c == '\\' && pair {
                    step = 2;
                }
                Place::Quoted(end, quote)
            },
        };
        if let Some(k) = kept {
            r.push(k);
        }
        let len: usize = rest.len();
        let tail = slice_subrange(rest, step, len);
        assert(tail@ =~= rest@.skip(step as int));
        assert(all == (match kept {
            Some(k) => seq![k],
            None => seq![],
        }) + tag_chars(tail@, next));
        assert(r@ + tag_chars(tail@, next) =~= before + all);
        rest = tail;
        place = next;
    }
    r
}

fn word_char(c: char) -> (r: bool)
    ensures
        r == is_word_char(c),
{
    ('a' <= c && c <= 'z') || ('A' <= c && c <= 'Z') || ('0' <= c && c <= '9') || c == '_'
}

fn word_len(s: &[char]) -> (r: usize)
    ensures
        r <= s@.len(),
        word(s@) == s@.take(r as int),
        s@.len() > 0 && is_word_char(s@[0]) ==> r > 0,
{
    let mut n: usize = 0;
    assert(s@.skip(0) =~= s@);
    assert(s@.take(0) + word(s@) =~= word(s@));
    while n < s.len() && word_char(s[n])
        invariant
            n <= s@.len(),
            word(s@) == s@.take(n as int) + word(s@.skip(n as int)),
            s@.len() > 0 && is_word_char(s@[0]) && n == 0 ==> n < s@.len(),
        decreases s@.len() - n,
    {
        assert(s@.skip(n as int).skip(1) =~= s@.skip(n + 1));
        assert(s@.take(n as int) + (seq![s@[n as int]] + word(s@.skip(n + 1))) =~= s@.take(n + 1)
            + word(s@.skip(n + 1)));
        n += 1;
    }
    assert(word(s@.skip(n as int)) =~= seq![]);
    assert(s@.take(n as int) + seq![] =~= s@.take(n as int));
    n
}

fn leads_with(s: &[char], name: &str) -> (r: bool)
    ensures
        r == (word(s@) == name@),
{
    let n = word_len(s);
    let found = slice_subrange(s, 0, n);
    assert(found@ =~= s@.take(n as int));
    same(found, chars_of(name).as_slice())
}

fn applies_filter(s: &[char], name: &str) -> (r: bool)
    ensures
        r == applies(s@, name@),
{
    let len: usize = s.len();
    let mut i: usize = 0;
    while i < len
        invariant
            len == s@.len(),
            i <= len,
            forall|j: int|
                0 <= j < i ==> !(#[trigger] s@[j] == '|' && word(past_gaps(s@.skip(j + 1)))
                    == name@),
        decreases len - i,
    {
        if s[i] == '|' {
            let mut k: usize = i + 1;
            while k < len && (s[k] == ' ' || s[k] == '\t' || s[k] == '\n' || s[k] == '\u{c}'
                || s[k] == '\r')
                invariant
                    len == s@.len(),
                    i < k <= len,
                    past_gaps(s@.skip(k as int)) == past_gaps(s@.skip(i + 1)),
                decreases len - k,
            {
                assert(s@.skip(k as int).skip(1) =~= s@.skip(k + 1));
                k += 1;
            }
            let tail = slice_subrange(s, k, len);
            assert(tail@ =~= s@.skip(k as int));
            if leads_with(tail, name) {
                assert(s@[i as int] == '|');
                return true;
            }
        }
        i += 1;
    }
    false
}

fn holds_word(s: &[char], name: &str) -> (r: bool)
    ensures
        r == has_word(s@, name@),
{
    let len: usize = s.len();
    let mut i: usize = 0;
    while i < len
        invariant
            len == s@.len(),
            i <= len,
            forall|j: int|
                0 <= j < i ==> !((j == 0 || !is_word_char(s@[j - 1])) && word(#[trigger] s@.skip(j))
                    == name@),
        decreases len - i,
    {
        if i == 0 || !word_char(s[i - 1]) {
            let tail = slice_subrange(s, i, len);
            assert(tail@ =~= s@.skip(i as int));
            if leads_with(tail, name) {
                return true;
            }
        }
        i += 1;
    }
    false
}

fn is_digit(c: char) -> (r: bool)
    ensures
        r == text::is_ascii_digit(c),
{
    '0' <= c && c <= '9'
}

fn brackets_item(s: &[char], i: usize) -> (r: bool)
    requires
        i <= s@.len(),
    ensures
        r == picks_item(s@.take(i as int)),
{
    if i > 0 && (s[i - 1] == ')' || s[i - 1] == ']' || s[i - 1] == '"' || s[i - 1] == '?') {
        return true;
    }
    let ghost before = s@.take(i as int);
    let mut start: usize = i;
    assert(s@.subrange(i as int, i as int) =~= seq![]);
    assert(last_word(before) + seq![] =~= last_word(before));
    while start > 0 && word_char(s[start - 1])
        invariant
            start <= i <= s@.len(),
            before == s@.take(i as int),
            last_word(before) == last_word(s@.take(start as int)) + s@.subrange(
                start as int,
                i as int,
            ),
        decreases start,
    {
        assert(s@.take(start as int).drop_last() =~= s@.take(start - 1));
        assert(s@.take(start as int).last() == s@[start - 1]);
        assert(last_word(s@.take(start - 1)).push(s@[start - 1]) + s@.subrange(
            start as int,
            i as int,
        ) =~= last_word(s@.take(start - 1)) + s@.subrange(start - 1, i as int));
        start -= 1;
    }
    assert(last_word(s@.take(start as int)) =~= seq![]);
    let name = slice_subrange(s, start, i);
    assert(name@ =~= last_word(before));
    name.len() > 0 && !is_digit(name[0]) && !(same(name, chars_of("in").as_slice()) || same(
        name,
        chars_of("and").as_slice(),
    ) || same(name, chars_of("or").as_slice()) || same(name, chars_of("not").as_slice()) || same(
        name,
        chars_of("if").as_slice(),
    ) || same(name, chars_of("elif").as_slice()) || same(name, chars_of("else").as_slice()))
}

fn starts_flat_group(s: &[char], named: bool) -> (r: bool)
    ensures
        r == is_flat_group(s@, named),
{
    let len: usize = s.len();
    let mut i: usize = 0;
    assert(s@.skip(0) =~= s@);
    while i < len
        invariant
            len == s@.len(),
            i <= len,
            is_flat_group(s@, named) == is_flat_group(s@.skip(i as int), named),
        decreases len - i,
    {
        let c = s[i];
        let rest = slice_subrange(s, i, len);
        assert(rest@ =~= s@.skip(i as int));
        if c == '[' || c == '{' {
            return false;
        }
        if c == ']' || c == '}' {
            return true;
        }
        if word_char(c) {
            let n = word_len(rest);
            let name = slice_subrange(rest, 0, n);
            assert(name@ =~= word(rest@));
            if same(name, chars_of("split").as_slice()) || same(name, chars_of("range").as_slice())
                || same(name, chars_of("keys").as_slice()) || same(
                name,
                chars_of("values").as_slice(),
            ) || (named && !is_digit(c)) {
                return false;
            }
            assert(rest@.skip(n as int) =~= s@.skip(i + n));
            i += n;
        } else {
            assert(rest@.skip(1) =~= s@.skip(i + 1));
            i += 1;
        }
    }
    false
}

/// An expression may give a list or an object that holds a list.
fn gives_nested(s: &[char]) -> (r: bool)
    ensures
        r == may_nest(s@),
{
    let spread = chars_of("...");
    proof {
        text::find_none(s@, "..."@);
    }
    if position(s, spread.as_slice()).is_some() || applies_filter(s, "pairs") || applies_filter(
        s,
        "group_by",
    ) || holds_word(s, "__tera_context") {
        return true;
    }
    let named = holds_word(s, "set") || holds_word(s, "set_global") || holds_word(s, "component");
    let len: usize = s.len();
    let mut i: usize = 0;
    while i < len
        invariant
            len == s@.len(),
            i <= len,
            named == names_values(s@),
            forall|j: int| 0 <= j < i ==> !#[trigger] nests_at(s@, j),
        decreases len - i,
    {
        if s[i] == '{' || (s[i] == '[' && !brackets_item(s, i)) {
            let tail = slice_subrange(s, i + 1, len);
            assert(tail@ =~= s@.skip(i + 1));
            if !starts_flat_group(tail, named) {
                assert(nests_at(s@, i as int));
                return true;
            }
        }
        i += 1;
    }
    false
}

/// With fields that are no lists, the template hands no list of lists to the `sort`
/// filter.
pub fn check_sorting(template: &str) -> (r: bool)
    ensures
        r == is_sortable(template@),
{
    let raw = contains(template, "endraw");
    let chars = chars_of(template);
    let inside = if raw {
        chars
    } else {
        push_tag_chars(chars.as_slice())
    };
    !applies_filter(inside.as_slice(), "sort") || (!raw && !gives_nested(inside.as_slice()))
}

/// Why a template is refused that may sort lists of lists.
pub open spec fn unsortable() -> ErrorView {
    ErrorView::TeraError("the template may sort lists of lists"@)
}

/// The page that a template gives with fields that are texts, numbers and flags. One
/// that may sort lists of lists is refused.
pub fn render_page(
    template: &str,
    fields: &serde_json::Map<std::string::String, serde_json::Value>,
) -> (r: Result<String, CustomError>)
    requires
        context::are_scalars(json::fields_of(*fields)),
    ensures
        is_page(r, Ok(json::fields_of(*fields)), template@),
{
    if !check_sorting(template) {
        return Err(CustomError::TeraError("the template may sort lists of lists".to_owned()));
    }
    match render_template(template, fields) {
        Ok(page) => Ok(page),
        Err(message) => Err(CustomError::TeraError(message)),
    }
}

/// `r` is the page that a template gives with the given fields, or the error in their
/// place. Nothing is said of the page of a template that is not determined, nor of the
/// text of an error of the template.
pub open spec fn is_page(
    r: Result<String, CustomError>,
    fields: Result<Map<Seq<char>, JsonView>, ErrorView>,
    template: Seq<char>,
) -> bool {
    match fields {
        Err(e) => r matches Err(error) && error@ == e,
        Ok(fields) => if is_sortable(template) {
            match r {
                Ok(html) => is_determined(template) ==> rendered(template, fields) == Some(html@),
                Err(e) => e@ is TeraError && (is_determined(template) ==> rendered(
                    template,
                    fields,
                ) is None),
            }
        } else {
            r matches Err(error) && error@ == unsortable()
        },
    }
}

/// The page that a template gives with the given fields, or the error in their place.
pub fn page_with(
    template: &str,
    fields: Result<serde_json::Map<std::string::String, serde_json::Value>, CustomError>,
) -> (r: Result<String, CustomError>)
    requires
        fields matches Ok(fields) ==> context::are_scalars(json::fields_of(fields)),
    ensures
        is_page(r, context::fields_result(fields), template@),
{
    match fields {
        Ok(fields) => render_page(template, &fields),
        Err(e) => Err(e),
    }
}

// ---------------------------------------------------------------------------
// What a page is
// ---------------------------------------------------------------------------

/// The page of a template that applies no filter, takes no power and does not name the
/// context is what the template gives with those very fields, and there is none only where
/// the template gives none. Where there are no fields, their error is told.
pub proof fn pages_are_rendered_from_their_fields(
    r: Result<String, CustomError>,
    fields: Map<Seq<char>, JsonView>,
    error: ErrorView,
    template: Seq<char>,
)
    requires
        text::lacks(template, '|'),
        text::lacks(template, '*'),
        !text::occurs(template, "__tera_context"@),
    ensures
        is_page(r, Ok(fields), template) ==> match r {
            Ok(html) => rendered(template, fields) == Some(html@),
            Err(e) => rendered(template, fields) is None && e@ is TeraError,
        },
        is_page(r, Err(error), template) ==> (r matches Err(e) && e@ == error),
{
    plain_templates_are_determined(template);
}

/// A template that applies no filter, takes no power and does not name the context gives the
/// same page everywhere, and sorts nothing.
pub proof fn plain_templates_are_determined(template: Seq<char>)
    requires
        text::lacks(template, '|'),
        text::lacks(template, '*'),
        !text::occurs(template, "__tera_context"@),
    ensures
        is_determined(template),
        is_sortable(template),
{
    let inside = expressions(template);
    if !may_be_raw(template) {
        tags_lack(template, Place::Outside, '|');
        tags_lack(template, Place::Outside, '*');
    }
    assert(text::lacks(inside, '|') && text::lacks(inside, '*'));
    reveal_strlit("**");
    reveal_strlit("__tera_context");
    if text::occurs(inside, "**"@) {
        let i = choose|i: int| text::occurs_at(inside, "**"@, i);
        text::occurrence_is_a_match(inside, "**"@, i);
        assert("**"@[0] == inside[i + 0]);
    }
    if has_word(inside, "__tera_context"@) {
        let i = choose|i: int|
            0 <= i < inside.len() && (i == 0 || !is_word_char(inside[i - 1])) && word(
                #[trigger] inside.skip(i),
            ) == "__tera_context"@;
        word_is_a_prefix(inside.skip(i));
        let p = "__tera_context"@;
        assert(inside.skip(i).take(p.len() as int) == p);
        assert(inside.subrange(i, i + p.len()) =~= p);
        assert(text::occurs_at(inside, p, i));
        if !may_be_raw(template) {
            tag_texts_stand_in_the_template(template, Place::Outside, p, i);
        }
    }
}

proof fn word_is_a_prefix(s: Seq<char>)
    ensures
        word(s).len() <= s.len(),
        s.take(word(s).len() as int) == word(s),
    decreases s.len(),
{
    if s.len() > 0 && is_word_char(s[0]) {
        word_is_a_prefix(s.skip(1));
        assert(s.take(word(s).len() as int) =~= seq![s[0]] + s.skip(1).take(
            word(s.skip(1)).len() as int,
        ));
    } else {
        assert(s.take(0) =~= seq![]);
    }
}

proof fn tags_lack(s: Seq<char>, place: Place, c: char)
    requires
        text::lacks(s, c),
        c != ' ',
        c != '"',
    ensures
        text::lacks(tag_chars(s, place), c),
    decreases s.len(),
{
    if s.len() > 0 {
        assert(text::lacks(s.skip(1), c));
        tags_lack(s.skip(1), Place::Outside, c);
        tags_lack(s.skip(1), Place::Comment, c);
        tags_lack(s.skip(1), place, c);
        match place {
            Place::Tag(end) => {
                tags_lack(s.skip(1), Place::Quoted(end, s[0]), c);
            },
            Place::Quoted(end, quote) => {
                tags_lack(s.skip(1), Place::Tag(end), c);
            },
            _ => {},
        }
        if s.len() > 1 {
            assert(text::lacks(s.skip(2), c));
            tags_lack(s.skip(2), Place::Outside, c);
            tags_lack(s.skip(2), Place::Comment, c);
            tags_lack(s.skip(2), Place::Tag('}'), c);
            tags_lack(s.skip(2), Place::Tag('%'), c);
            tags_lack(s.skip(2), place, c);
        }
    }
}

/// A text without blanks and quotation marks that stands in the tags of a template stands
/// in the template.
proof fn tag_texts_stand_in_the_template(s: Seq<char>, place: Place, p: Seq<char>, i: int)
    requires
        p.len() > 0,
        text::lacks(p, ' '),
        text::lacks(p, '"'),
        text::occurs_at(tag_chars(s, place), p, i),
    ensures
        text::occurs(s, p),
    decreases s.len(),
{
    let all = tag_chars(s, place);
    let (step, next, kept) = tag_step(s, place);
    let rest = s.skip(step);
    let tail = tag_chars(rest, next);
    tag_step_is_taken(s, place);
    if i >= kept.len() {
        let j = i - kept.len();
        assert(tail.subrange(j, j + p.len()) =~= all.subrange(i, i + p.len()));
        tag_texts_stand_in_the_template(rest, next, p, j);
        let k = choose|k: int| text::occurs_at(rest, p, k);
        assert(rest.subrange(k, k + p.len()) =~= s.subrange(k + step, k + step + p.len()));
        assert(text::occurs_at(s, p, k + step));
    } else {
        assert(all.subrange(0, p.len() as int)[0] == all[0]);
        assert(all[0] == p[0]);
        tag_start_stands_in_the_template(s, place, p);
        assert(text::occurs_at(s, p, 0));
    }
}

/// How many characters of a template are read at once, where the next one stands, and what
/// is kept of them.
spec fn tag_step(s: Seq<char>, place: Place) -> (int, Place, Seq<char>) {
    match place {
        Place::Outside => if text::occurs_at(s, seq!['{', '{'], 0) {
            (2, Place::Tag('}'), seq![])
        } else if text::occurs_at(s, seq!['{', '%'], 0) {
            (2, Place::Tag('%'), seq![])
        } else if text::occurs_at(s, seq!['{', '#'], 0) {
            (2, Place::Comment, seq![])
        } else {
            (1, Place::Outside, seq![])
        },
        Place::Comment => if text::occurs_at(s, seq!['#', '}'], 0) {
            (2, Place::Outside, seq![])
        } else {
            (1, Place::Comment, seq![])
        },
        Place::Tag(end) => if text::occurs_at(s, seq![end, '}'], 0) {
            (2, Place::Outside, seq![' '])
        } else if s[0] == '"' || s[0] == '\'' || s[0] == '`' {
            (1, Place::Quoted(end, s[0]), seq!['"'])
        } else {
            (1, place, seq![s[0]])
        },
        Place::Quoted(end, quote) => if s[0] == quote {
            (1, Place::Tag(end), seq![])
        } else if s[0] == '\\' && s.len() > 1 {
            (2, place, seq![])
        } else {
            (1, place, seq![])
        },
    }
}

proof fn tag_step_is_taken(s: Seq<char>, place: Place)
    requires
        tag_chars(s, place).len() > 0,
    ensures
        s.len() > 0,
        ({
            let (step, next, kept) = tag_step(s, place);
            &&& 1 <= step <= s.len()
            &&& tag_chars(s, place) == kept + tag_chars(s.skip(step), next)
        }),
{
    let (step, next, kept) = tag_step(s, place);
    assert(seq![] + tag_chars(s.skip(step), next) =~= tag_chars(s.skip(step), next));
}

proof fn tag_start_stands_in_the_template(s: Seq<char>, place: Place, p: Seq<char>)
    requires
        p.len() > 0,
        text::lacks(p, ' '),
        text::lacks(p, '"'),
        text::occurs_at(tag_chars(s, place), p, 0),
        tag_step(s, place).2.len() > 0,
    ensures
        text::occurs_at(s, p, 0),
    decreases p.len(),
{
    tag_step_is_taken(s, place);
    let all = tag_chars(s, place);
    let (step, next, kept) = tag_step(s, place);
    let rest = s.skip(step);
    let tail = tag_chars(rest, next);
    assert(all.subrange(0, p.len() as int) == p);
    assert(p[0] == all[0]);
    assert(all[0] == kept[0]);
    assert(kept[0] == s[0] && step == 1 && next == place);
    let q = p.skip(1);
    if q.len() > 0 {
        assert(tail.subrange(0, q.len() as int) =~= q) by {
            assert forall|k: int| 0 <= k < q.len() implies tail[k] == q[k] by {
                assert(all.subrange(0, p.len() as int)[k + 1] == all[k + 1]);
                assert(all[k + 1] == tail[k]);
            }
        }
        assert(text::occurs_at(tail, q, 0));
        assert(tail[0] == q[0]);
        tag_step_is_taken(rest, next);
        tag_start_stands_in_the_template(rest, next, q);
        assert(rest.subrange(0, q.len() as int) == q);
        assert(s.subrange(0, p.len() as int) =~= p) by {
            assert forall|k: int| 0 <= k < p.len() implies s[k] == p[k] by {
                if k > 0 {
                    assert(rest.subrange(0, q.len() as int)[k - 1] == s[k]);
                }
            }
        }
    } else {
        assert(s.subrange(0, 1) =~= p);
    }
}

/// What is sorted may hold lists where a list is written inside a list, and the template is
/// then refused; lists of numbers are sorted.
pub proof fn refused_templates_are_told(
    r: Result<String, CustomError>,
    fields: Map<Seq<char>, JsonView>,
    template: Seq<char>,
)
    ensures
        is_page(r, Ok(fields), template) && !is_sortable(template) ==> (r matches Err(e) && e@
            == ErrorView::TeraError("the template may sort lists of lists"@)),
{
}

} // verus!
