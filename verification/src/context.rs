//! The fields that a template is rendered with: what the request says, the segments
//! of its QR text, and what the placeholders of the template ask for.
use vstd::prelude::*;
use vstd::slice::slice_subrange;

use crate::codec;
use crate::codec::{barcode_data_uri, qr_code_data_uri};
use crate::decimal;
use crate::decimal::parse_usize;
use crate::err;
use crate::err::{CustomError, ErrorView, other_error_with};
use crate::hex;
use crate::hex::decode_hex;
use crate::json;
use crate::json::{Json, JsonView, get_field, insert_field, new_fields, text_of_number, to_value, value_text};
use crate::text;
use crate::text::{
    append_chars, chars_of, copy_chars, last_position, position, split_on, starts_with, string_of,
    trimmed, utf8_text,
};

verus! {

// ---------------------------------------------------------------------------
// Placeholders
// ---------------------------------------------------------------------------

/// What stands between each `open` and the `}}` that follows it, without white space
/// at its ends, from left to right.
pub open spec fn tags(s: Seq<char>, open: Seq<char>) -> Seq<Seq<char>>
    decreases s.len(),
{
    match text::find(s, open) {
        None => seq![],
        Some(i) => {
            let after = s.skip(i + open.len());
            match text::find(after, seq!['}', '}']) {
                None => seq![],
                Some(e) => seq![text::trim(after.take(e))] + tags(after.skip(e + 2), open),
            }
        },
    }
}

/// What stands between each `open` and the `}}` that follows it.
pub fn tags_of(s: &[char], open: &[char]) -> (r: Vec<Vec<char>>)
    ensures
        text::pieces(r@) == tags(s@, open@),
{
    let close: Vec<char> = vec!['}', '}'];
    assert(close@ =~= seq!['}', '}']);
    let mut r: Vec<Vec<char>> = Vec::new();
    let mut rest: &[char] = s;
    loop
        invariant
            close@ == seq!['}', '}'],
            text::pieces(r@) + tags(rest@, open@) == tags(s@, open@),
        decreases rest@.len(),
    {
        match position(rest, open) {
            None => {
                return r;
            },
            Some(i) => {
                let len: usize = rest.len();
                let after = slice_subrange(rest, i + open.len(), len);
                assert(after@ =~= rest@.skip(i + open@.len()));
                match position(after, close.as_slice()) {
                    None => {
                        return r;
                    },
                    Some(e) => {
                        let ghost before = text::pieces(r@);
                        let inner = slice_subrange(after, 0, e);
                        assert(inner@ =~= after@.take(e as int));
                        let len: usize = after.len();
                        let tail = slice_subrange(after, e + 2, len);
                        assert(tail@ =~= after@.skip(e + 2));
                        let tag = copy_chars(trimmed(inner));
                        r.push(tag);
                        assert(text::pieces(r@) =~= before + seq![text::trim(inner@)]);
                        assert(text::pieces(r@) + tags(tail@, open@) =~= before + tags(
                            rest@,
                            open@,
                        ));
                        rest = tail;
                    },
                }
            },
        }
    }
}

// ---------------------------------------------------------------------------
// Single fields
// ---------------------------------------------------------------------------

/// The text in the field `key`; empty where it is absent or no text.
pub open spec fn text_at(fields: Map<Seq<char>, JsonView>, key: Seq<char>) -> Seq<char> {
    if fields.contains_key(key) {
        match fields[key] {
            JsonView::Text(s) => s,
            _ => seq![],
        }
    } else {
        seq![]
    }
}

/// The fields are texts, numbers and flags.
pub open spec fn are_scalars(fields: Map<Seq<char>, JsonView>) -> bool {
    forall|k: Seq<char>| #[trigger] fields.contains_key(k) ==> json::is_scalar(fields[k])
}

fn text_in(
    fields: &serde_json::Map<std::string::String, serde_json::Value>,
    key: &str,
) -> (r: String)
    ensures
        r@ == text_at(json::fields_of(*fields), key@),
{
    match get_field(fields, key) {
        Some(value) => match value_text(value) {
            Some(s) => s.to_owned(),
            None => String::new(),
        },
        None => String::new(),
    }
}

fn set_text(
    fields: &mut serde_json::Map<std::string::String, serde_json::Value>,
    key: String,
    text: String,
)
    ensures
        json::fields_of(*final(fields)) == json::fields_of(*old(fields)).insert(
            key@,
            JsonView::Text(text@),
        ),
{
    let value = to_value(&Json::Text(text));
    insert_field(fields, key, value);
}

fn joined(a: &str, b: &[char]) -> (r: String)
    ensures
        r@ == a@ + b@,
{
    let mut chars = chars_of(a);
    append_chars(&mut chars, b);
    string_of(chars.as_slice())
}

// ---------------------------------------------------------------------------
// Split variables: {{ _x_<field>_<separator in hexadecimal>_<index> }}
// ---------------------------------------------------------------------------

/// What a split variable asks for: the field, the separator and the index.
pub struct SplitKey {
    pub field: Seq<char>,
    pub separator: Seq<char>,
    pub index: int,
}

/// The separator that hexadecimal digits stand for: the text of their bytes.
pub open spec fn separator_of(digits: Seq<char>) -> Option<Seq<char>> {
    match hex::decoded(digits) {
        Some(bytes) => if vstd::utf8::valid_utf8(bytes) && vstd::utf8::decode_utf8(bytes).len()
            > 0 {
            Some(vstd::utf8::decode_utf8(bytes))
        } else {
            None
        },
        None => None,
    }
}

/// What a split variable asks for, read from its end, since a field may hold `_`.
pub open spec fn split_key(key: Seq<char>) -> Option<SplitKey> {
    match text::last_index(key, '_') {
        None => None,
        Some(i) => {
            let head = key.take(i);
            match text::last_index(head, '_') {
                None => None,
                Some(j) => match (
                    decimal::parsed(key.skip(i + 1), 0, usize::MAX as int),
                    separator_of(head.skip(j + 1)),
                ) {
                    (Some(index), Some(separator)) => Some(
                        SplitKey { field: head.take(j), separator, index },
                    ),
                    _ => None,
                },
            }
        },
    }
}

/// The piece at `index`; empty where there is none.
pub open spec fn piece_at(list: Seq<Seq<char>>, index: int) -> Seq<char> {
    if 0 <= index < list.len() {
        list[index]
    } else {
        seq![]
    }
}

/// The fields with the split variable `key` set.
pub open spec fn with_split(
    fields: Map<Seq<char>, JsonView>,
    key: Seq<char>,
) -> Map<Seq<char>, JsonView> {
    match split_key(key) {
        None => fields,
        Some(k) => fields.insert(
            "_x_"@ + key,
            JsonView::Text(piece_at(text::split(text_at(fields, k.field), k.separator), k.index)),
        ),
    }
}

/// The fields with each of the split variables `keys` set, in order.
pub open spec fn with_splits(
    fields: Map<Seq<char>, JsonView>,
    keys: Seq<Seq<char>>,
) -> Map<Seq<char>, JsonView>
    decreases keys.len(),
{
    if keys.len() == 0 {
        fields
    } else {
        with_split(with_splits(fields, keys.drop_last()), keys.last())
    }
}

/// The fields with the split variables of a template set.
pub open spec fn split_fields(
    fields: Map<Seq<char>, JsonView>,
    template: Seq<char>,
) -> Map<Seq<char>, JsonView> {
    with_splits(fields, tags(template, "{{ _x_"@))
}

struct SplitRequest {
    field: String,
    separator: Vec<char>,
    index: usize,
}

fn read_separator(digits: &[char]) -> (r: Option<Vec<char>>)
    ensures
        match r {
            Some(s) => separator_of(digits@) == Some(s@) && s@.len() > 0,
            None => separator_of(digits@) is None,
        },
{
    match decode_hex(digits) {
        None => None,
        Some(bytes) => match utf8_text(bytes) {
            None => None,
            Some(separator) => {
                let chars = chars_of(separator.as_str());
                if chars.len() == 0 {
                    None
                } else {
                    Some(chars)
                }
            },
        },
    }
}

fn read_split_key(key: &[char]) -> (r: Option<SplitRequest>)
    ensures
        match r {
            Some(k) => k.separator@.len() > 0 && split_key(key@) == Some(
                SplitKey { field: k.field@, separator: k.separator@, index: k.index as int },
            ),
            None => split_key(key@) is None,
        },
{
    let len: usize = key.len();
    match last_position(key, '_') {
        None => None,
        Some(i) => {
            let head = slice_subrange(key, 0, i);
            let digits = slice_subrange(key, i + 1, len);
            assert(head@ =~= key@.take(i as int));
            assert(digits@ =~= key@.skip(i + 1));
            match last_position(head, '_') {
                None => None,
                Some(j) => {
                    let field = slice_subrange(head, 0, j);
                    let hex_digits = slice_subrange(head, j + 1, i);
                    assert(field@ =~= head@.take(j as int));
                    assert(hex_digits@ =~= head@.skip(j + 1));
                    match (parse_usize(digits), read_separator(hex_digits)) {
                        (Some(index), Some(separator)) => Some(
                            SplitRequest { field: string_of(field), separator, index },
                        ),
                        _ => None,
                    }
                },
            }
        },
    }
}

/// Sets the split variables that a template asks for. A variable that does not read
/// as one is left alone; a missing field or piece gives an empty text.
pub fn apply_split_variables(
    fields: &mut serde_json::Map<std::string::String, serde_json::Value>,
    template: &str,
)
    ensures
        json::fields_of(*final(fields)) == split_fields(json::fields_of(*old(fields)), template@),
{
    let html = chars_of(template);
    let open = chars_of("{{ _x_");
    let keys = tags_of(html.as_slice(), open.as_slice());
    let ghost before = json::fields_of(*fields);
    let ghost all = tags(template@, "{{ _x_"@);
    let mut i: usize = 0;
    assert(all.take(0) =~= seq![]);
    while i < keys.len()
        invariant
            text::pieces(keys@) == all,
            i <= keys@.len(),
            json::fields_of(*fields) == with_splits(before, all.take(i as int)),
        decreases keys@.len() - i,
    {
        let key = keys[i].as_slice();
        assert(all.len() == keys@.len());
        assert(all[i as int] == key@);
        assert(all.take(i + 1).drop_last() =~= all.take(i as int));
        match read_split_key(key) {
            None => {},
            Some(k) => {
                let value = chars_of(text_in(fields, k.field.as_str()).as_str());
                let parts = split_on(value.as_slice(), k.separator.as_slice());
                let ghost pieces = text::split(value@, k.separator@);
                assert(pieces.len() == parts@.len());
                let part = if k.index < parts.len() {
                    assert(pieces[k.index as int] == parts@[k.index as int]@);
                    string_of(parts[k.index].as_slice())
                } else {
                    String::new()
                };
                assert(part@ == piece_at(pieces, k.index as int));
                set_text(fields, joined("_x_", key), part);
            },
        }
        i += 1;
    }
    assert(all.take(i as int) =~= all);
}

// ---------------------------------------------------------------------------
// Image variables: {{ _qr_<field> }} and {{ _bar_<field> }}
// ---------------------------------------------------------------------------

/// The mark of the image variables: QR codes or bar codes.
pub open spec fn image_mark(qr: bool) -> Seq<char> {
    if qr {
        "_qr_"@
    } else {
        "_bar_"@
    }
}

/// What opens the placeholder of an image variable.
pub open spec fn image_open(qr: bool) -> Seq<char> {
    if qr {
        "{{ _qr_"@
    } else {
        "{{ _bar_"@
    }
}

/// The field that an image variable names: what stands before a filter.
pub open spec fn image_field(key: Seq<char>) -> Seq<char> {
    text::trim(text::split(key, seq!['|'])[0])
}

/// The image element of a data URI; nothing where there is none.
pub open spec fn image_element(uri: Result<Seq<char>, ErrorView>) -> Seq<char> {
    match uri {
        Ok(uri) => "<img src=\""@ + uri
            + "\" style=\"width:100%;height:100%;object-fit:contain\">"@,
        Err(_) => seq![],
    }
}

/// The image element of a text as a QR code or a bar code; nothing for an empty text
/// and for one that the code cannot hold.
pub open spec fn image_of(value: Seq<char>, qr: bool) -> Seq<char> {
    if value.len() == 0 {
        seq![]
    } else if qr {
        image_element(codec::qr_uri(value))
    } else {
        image_element(codec::barcode_uri(value))
    }
}

/// The fields with the image variable `key` set.
pub open spec fn with_image(
    fields: Map<Seq<char>, JsonView>,
    key: Seq<char>,
    qr: bool,
) -> Map<Seq<char>, JsonView> {
    fields.insert(
        image_mark(qr) + image_field(key),
        JsonView::Text(image_of(text_at(fields, image_field(key)), qr)),
    )
}

/// The fields with each of the image variables `keys` set, in order.
pub open spec fn with_images(
    fields: Map<Seq<char>, JsonView>,
    keys: Seq<Seq<char>>,
    qr: bool,
) -> Map<Seq<char>, JsonView>
    decreases keys.len(),
{
    if keys.len() == 0 {
        fields
    } else {
        with_image(with_images(fields, keys.drop_last(), qr), keys.last(), qr)
    }
}

/// The fields with the image variables of a template set, QR codes first.
pub open spec fn image_fields(
    fields: Map<Seq<char>, JsonView>,
    template: Seq<char>,
) -> Map<Seq<char>, JsonView> {
    with_images(
        with_images(fields, tags(template, image_open(true)), true),
        tags(template, image_open(false)),
        false,
    )
}

/// The image element of a data URI.
pub fn image_tag(uri: Result<String, CustomError>) -> (r: String)
    ensures
        r@ == image_element(err::told(uri)),
{
    match uri {
        Ok(uri) => {
            let mut r = "<img src=\"".to_owned();
            r.append(uri.as_str());
            r.append("\" style=\"width:100%;height:100%;object-fit:contain\">");
            r
        },
        Err(_) => String::new(),
    }
}

fn draw_image(value: &str, qr: bool) -> (r: String)
    ensures
        r@ == image_of(value@, qr),
{
    let chars = chars_of(value);
    if chars.len() == 0 {
        String::new()
    } else if qr {
        image_tag(qr_code_data_uri(value))
    } else {
        image_tag(barcode_data_uri(value))
    }
}

fn apply_images(
    fields: &mut serde_json::Map<std::string::String, serde_json::Value>,
    template: &str,
    qr: bool,
)
    ensures
        json::fields_of(*final(fields)) == with_images(
            json::fields_of(*old(fields)),
            tags(template@, image_open(qr)),
            qr,
        ),
{
    let html = chars_of(template);
    let open = if qr {
        chars_of("{{ _qr_")
    } else {
        chars_of("{{ _bar_")
    };
    let keys = tags_of(html.as_slice(), open.as_slice());
    let bar: Vec<char> = vec!['|'];
    assert(bar@ =~= seq!['|']);
    let ghost before = json::fields_of(*fields);
    let ghost all = tags(template@, image_open(qr));
    let mut i: usize = 0;
    assert(all.take(0) =~= seq![]);
    while i < keys.len()
        invariant
            bar@ == seq!['|'],
            text::pieces(keys@) == all,
            i <= keys@.len(),
            json::fields_of(*fields) == with_images(before, all.take(i as int), qr),
        decreases keys@.len() - i,
    {
        let key = keys[i].as_slice();
        assert(all.len() == keys@.len());
        assert(all[i as int] == key@);
        assert(all.take(i + 1).drop_last() =~= all.take(i as int));
        let parts = split_on(key, bar.as_slice());
        assert(text::split(key@, seq!['|'])[0] == parts@[0]@);
        let field = trimmed(parts[0].as_slice());
        let value = text_in(fields, string_of(field).as_str());
        let image = draw_image(value.as_str(), qr);
        let name = if qr {
            joined("_qr_", field)
        } else {
            joined("_bar_", field)
        };
        set_text(fields, name, image);
        i += 1;
    }
    assert(all.take(i as int) =~= all);
}

/// Sets the image variables that a template asks for.
pub fn apply_image_variables(
    fields: &mut serde_json::Map<std::string::String, serde_json::Value>,
    template: &str,
)
    ensures
        json::fields_of(*final(fields)) == image_fields(json::fields_of(*old(fields)), template@),
{
    apply_images(fields, template, true);
    apply_images(fields, template, false);
}

// ---------------------------------------------------------------------------
// Placeholders without a field
// ---------------------------------------------------------------------------

/// An ASCII identifier.
pub open spec fn is_identifier(key: Seq<char>) -> bool {
    &&& key.len() > 0
    &&& text::is_ascii_letter(key[0]) || key[0] == '_'
    &&& forall|i: int|
        0 <= i < key.len() ==> text::is_ascii_alphanumeric(#[trigger] key[i]) || key[i] == '_'
}

/// A placeholder that gets an empty text where its field is missing: an identifier
/// that is no split variable.
pub open spec fn is_fillable(key: Seq<char>) -> bool {
    is_identifier(key) && !text::occurs_at(key, "_x_"@, 0)
}

/// The fields with an empty text for the placeholder `key` where its field is missing.
pub open spec fn with_blank(
    fields: Map<Seq<char>, JsonView>,
    key: Seq<char>,
) -> Map<Seq<char>, JsonView> {
    if is_fillable(key) && !fields.contains_key(key) {
        fields.insert(key, JsonView::Text(seq![]))
    } else {
        fields
    }
}

/// The fields with an empty text for each of the placeholders `keys` whose field is
/// missing.
pub open spec fn with_blanks(
    fields: Map<Seq<char>, JsonView>,
    keys: Seq<Seq<char>>,
) -> Map<Seq<char>, JsonView>
    decreases keys.len(),
{
    if keys.len() == 0 {
        fields
    } else {
        with_blank(with_blanks(fields, keys.drop_last()), keys.last())
    }
}

/// The fields with an empty text for each placeholder of a template without a field.
pub open spec fn filled_fields(
    fields: Map<Seq<char>, JsonView>,
    template: Seq<char>,
) -> Map<Seq<char>, JsonView> {
    with_blanks(fields, tags(template, "{{"@))
}

fn is_ident_char(c: char) -> (r: bool)
    ensures
        r == (text::is_ascii_alphanumeric(c) || c == '_'),
{
    ('0' <= c && c <= '9') || ('a' <= c && c <= 'z') || ('A' <= c && c <= 'Z') || c == '_'
}

fn is_ident(key: &[char]) -> (r: bool)
    ensures
        r == is_identifier(key@),
{
    if key.len() == 0 {
        return false;
    }
    if '0' <= key[0] && key[0] <= '9' {
        return false;
    }
    let mut i: usize = 0;
    while i < key.len()
        invariant
            i <= key@.len(),
            forall|j: int|
                0 <= j < i ==> text::is_ascii_alphanumeric(#[trigger] key@[j]) || key@[j] == '_',
        decreases key@.len() - i,
    {
        if !is_ident_char(key[i]) {
            assert(!(text::is_ascii_alphanumeric(key@[i as int]) || key@[i as int] == '_'));
            return false;
        }
        i += 1;
    }
    assert(text::is_ascii_alphanumeric(key@[0]) || key@[0] == '_');
    true
}

/// Sets an empty text for each placeholder of a template whose field is missing, so
/// that one missing field does not fail the whole page.
pub fn fill_missing_variables(
    fields: &mut serde_json::Map<std::string::String, serde_json::Value>,
    template: &str,
)
    ensures
        json::fields_of(*final(fields)) == filled_fields(json::fields_of(*old(fields)), template@),
{
    let html = chars_of(template);
    let open = chars_of("{{");
    let split_mark = chars_of("_x_");
    let keys = tags_of(html.as_slice(), open.as_slice());
    let ghost before = json::fields_of(*fields);
    let ghost all = tags(template@, "{{"@);
    let mut i: usize = 0;
    assert(all.take(0) =~= seq![]);
    while i < keys.len()
        invariant
            split_mark@ == "_x_"@,
            text::pieces(keys@) == all,
            i <= keys@.len(),
            json::fields_of(*fields) == with_blanks(before, all.take(i as int)),
        decreases keys@.len() - i,
    {
        let key = keys[i].as_slice();
        assert(all.len() == keys@.len());
        assert(all[i as int] == key@);
        assert(all.take(i + 1).drop_last() =~= all.take(i as int));
        if is_ident(key) && !starts_with(key, split_mark.as_slice()) {
            let name = string_of(key);
            if get_field(fields, name.as_str()).is_none() {
                let blank = String::new();
                assert(blank@ =~= seq![]);
                set_text(fields, name, blank);
            }
        }
        i += 1;
    }
    assert(all.take(i as int) =~= all);
}

// ---------------------------------------------------------------------------
// The fields of a request
// ---------------------------------------------------------------------------

/// The text of a text, a number or a flag.
pub open spec fn scalar_text(v: JsonView) -> Seq<char> {
    match v {
        JsonView::Text(s) => s,
        JsonView::Number(s) => s,
        JsonView::Bool(b) => if b {
            "true"@
        } else {
            "false"@
        },
        _ => seq![],
    }
}

/// A field as a template sees it: as it is, or as its text.
pub open spec fn shown(v: JsonView, as_text: bool) -> JsonView {
    if as_text {
        JsonView::Text(scalar_text(v))
    } else {
        v
    }
}

/// The texts, numbers and flags of a request.
pub open spec fn label_fields(label: JsonView, as_text: bool) -> Map<Seq<char>, JsonView> {
    match label {
        JsonView::Object(m) => Map::new(
            |k: Seq<char>| m.contains_key(k) && json::is_scalar(m[k]),
            |k: Seq<char>| shown(m[k], as_text),
        ),
        _ => Map::empty(),
    }
}

/// The fields that the segments of a QR text give, in order.
pub open spec fn segment_keys() -> Seq<Seq<char>> {
    seq!["material_no"@, "lot_no"@, "order_no"@, "count"@, "vender_code"@, "date"@, "box_no"@]
}

/// The segments of a QR text.
pub open spec fn segments(qr_text: Seq<char>) -> Seq<Seq<char>> {
    text::split(qr_text, seq!['|'])
}

/// The fields with the segments of a QR text set; they prevail over the request.
pub open spec fn with_segments(
    fields: Map<Seq<char>, JsonView>,
    parts: Seq<Seq<char>>,
) -> Map<Seq<char>, JsonView> {
    fields.insert("material_no"@, JsonView::Text(parts[0])).insert(
        "lot_no"@,
        JsonView::Text(parts[1]),
    ).insert("order_no"@, JsonView::Text(parts[2])).insert("count"@, JsonView::Text(parts[3])).insert(
        "vender_code"@,
        JsonView::Text(parts[4]),
    ).insert("date"@, JsonView::Text(parts[5])).insert("box_no"@, JsonView::Text(parts[6]))
}

/// A QR text with too few segments.
pub open spec fn too_few_segments(qr_text: Seq<char>) -> ErrorView {
    ErrorView::OtherLibraryError("qr_string 分段不足（需要 7 段）: "@ + qr_text)
}

/// The fields with the QR code set, or the error in its place.
pub open spec fn with_qr_code(
    fields: Map<Seq<char>, JsonView>,
    uri: Result<Seq<char>, ErrorView>,
) -> Result<Map<Seq<char>, JsonView>, ErrorView> {
    match uri {
        Ok(uri) => Ok(fields.insert("qr_code"@, JsonView::Text(uri))),
        Err(e) => Err(e),
    }
}

/// What the outcome of a function that returns fields holds.
pub open spec fn fields_result(
    r: Result<serde_json::Map<std::string::String, serde_json::Value>, CustomError>,
) -> Result<Map<Seq<char>, JsonView>, ErrorView> {
    match r {
        Ok(fields) => Ok(json::fields_of(fields)),
        Err(e) => Err(e@),
    }
}

/// One of the first `n` fields has the key `k`.
spec fn named(fields: Seq<(String, Json)>, n: int, k: Seq<char>) -> bool {
    exists|j: int| 0 <= j < n && (#[trigger] fields[j]).0@ == k
}

fn scalar_string(value: &Json) -> (r: String)
    ensures
        r@ == scalar_text(value@),
{
    match value {
        Json::Text(s) => s.clone(),
        Json::Number(n) => text_of_number(n),
        Json::Bool(b) => if *b {
            "true".to_owned()
        } else {
            "false".to_owned()
        },
        _ => String::new(),
    }
}

/// The texts, numbers and flags of a request, as they are or as texts.
pub fn fields_of_label(label: &Json, as_text: bool) -> (r: serde_json::Map<
    std::string::String,
    serde_json::Value,
>)
    ensures
        json::fields_of(r) == label_fields(label@, as_text),
{
    let mut map = new_fields();
    match label {
        Json::Object(fields) => {
            let ghost held = json::fields_view(fields@);
            let mut i: usize = 0;
            while i < fields.len()
                invariant
                    *label == Json::Object(*fields),
                    held == json::fields_view(fields@),
                    i <= fields@.len(),
                    forall|k: Seq<char>| #[trigger]
                        json::fields_of(map).contains_key(k) <==> named(fields@, i as int, k)
                            && json::is_scalar(held[k]),
                    forall|k: Seq<char>| #[trigger]
                        json::fields_of(map).contains_key(k) ==> json::fields_of(map)[k] == shown(
                            held[k],
                            as_text,
                        ),
                decreases fields@.len() - i,
            {
                let ghost before = json::fields_of(map);
                let ghost name = fields@[i as int].0@;
                proof {
                    json::key_is_held(fields@, i as int);
                    assert forall|k: Seq<char>|
                        named(fields@, i + 1, k) == (named(fields@, i as int, k) || k == name) by {
                        if k == name {
                            assert(fields@[i as int].0@ == k);
                        }
                        if named(fields@, i as int, k) {
                            let j = choose|j: int|
                                0 <= j < i && (#[trigger] fields@[j]).0@ == k;
                            assert(fields@[j].0@ == k);
                        }
                    }
                }
                match label.get(fields[i].0.as_str()) {
                    Some(value) => {
                        assert(value@ == held[name]);
                        if value.is_scalar() {
                            let shown_value = if as_text {
                                to_value(&Json::Text(scalar_string(value)))
                            } else {
                                to_value(value)
                            };
                            insert_field(&mut map, fields[i].0.clone(), shown_value);
                        }
                    },
                    None => {
                        assert(false);
                    },
                }
                i += 1;
            }
            proof {
                assert forall|k: Seq<char>|
                    named(fields@, fields@.len() as int, k) == held.contains_key(k) by {
                    if held.contains_key(k) {
                        json::held_key_is_field(fields@, k);
                    }
                    if named(fields@, fields@.len() as int, k) {
                        let j = choose|j: int|
                            0 <= j < fields@.len() && (#[trigger] fields@[j]).0@ == k;
                        json::key_is_held(fields@, j);
                    }
                }
                assert(json::fields_of(map) =~= label_fields(label@, as_text));
            }
        },
        _ => {
            assert(json::fields_of(map) =~= label_fields(label@, as_text));
        },
    }
    map
}

/// The segments of a QR text; an error where there are fewer than seven.
pub fn segments_of(qr_text: &str) -> (r: Result<Vec<Vec<char>>, CustomError>)
    ensures
        match r {
            Ok(parts) => text::pieces(parts@) == segments(qr_text@) && parts@.len() >= 7,
            Err(e) => segments(qr_text@).len() < 7 && e@ == too_few_segments(qr_text@),
        },
{
    let chars = chars_of(qr_text);
    let bar: Vec<char> = vec!['|'];
    assert(bar@ =~= seq!['|']);
    let parts = split_on(chars.as_slice(), bar.as_slice());
    assert(text::pieces(parts@).len() == parts@.len());
    if parts.len() < 7 {
        Err(other_error_with("qr_string 分段不足（需要 7 段）: ", qr_text))
    } else {
        Ok(parts)
    }
}

/// Sets the fields that the segments of a QR text give.
pub fn set_segments(
    fields: &mut serde_json::Map<std::string::String, serde_json::Value>,
    parts: &Vec<Vec<char>>,
)
    requires
        parts@.len() >= 7,
    ensures
        json::fields_of(*final(fields)) == with_segments(
            json::fields_of(*old(fields)),
            text::pieces(parts@),
        ),
{
    set_text(fields, "material_no".to_owned(), string_of(parts[0].as_slice()));
    set_text(fields, "lot_no".to_owned(), string_of(parts[1].as_slice()));
    set_text(fields, "order_no".to_owned(), string_of(parts[2].as_slice()));
    set_text(fields, "count".to_owned(), string_of(parts[3].as_slice()));
    set_text(fields, "vender_code".to_owned(), string_of(parts[4].as_slice()));
    set_text(fields, "date".to_owned(), string_of(parts[5].as_slice()));
    set_text(fields, "box_no".to_owned(), string_of(parts[6].as_slice()));
}

/// Sets the QR code, or gives the error in its place.
pub fn set_qr_code(
    fields: serde_json::Map<std::string::String, serde_json::Value>,
    uri: Result<String, CustomError>,
) -> (r: Result<serde_json::Map<std::string::String, serde_json::Value>, CustomError>)
    ensures
        fields_result(r) == with_qr_code(json::fields_of(fields), err::told(uri)),
{
    match uri {
        Ok(uri) => {
            let mut all = fields;
            set_text(&mut all, "qr_code".to_owned(), uri);
            Ok(all)
        },
        Err(e) => Err(e),
    }
}

// ---------------------------------------------------------------------------
// What holds of the passes
// ---------------------------------------------------------------------------

/// Filling in never changes a field that is there.
pub proof fn filling_keeps_fields(
    fields: Map<Seq<char>, JsonView>,
    template: Seq<char>,
    key: Seq<char>,
)
    requires
        fields.contains_key(key),
    ensures
        filled_fields(fields, template).contains_key(key),
        filled_fields(fields, template)[key] == fields[key],
{
    blanks_keep(fields, tags(template, "{{"@), key);
}

proof fn blanks_keep(fields: Map<Seq<char>, JsonView>, keys: Seq<Seq<char>>, key: Seq<char>)
    requires
        fields.contains_key(key),
    ensures
        with_blanks(fields, keys).contains_key(key),
        with_blanks(fields, keys)[key] == fields[key],
    decreases keys.len(),
{
    if keys.len() > 0 {
        blanks_keep(fields, keys.drop_last(), key);
    }
}

/// After filling in, every placeholder of a template that is an identifier and no
/// split variable has a field: none of them can fail the page.
pub proof fn filling_covers_placeholders(
    fields: Map<Seq<char>, JsonView>,
    template: Seq<char>,
    i: int,
)
    requires
        0 <= i < tags(template, "{{"@).len(),
        is_fillable(tags(template, "{{"@)[i]),
    ensures
        filled_fields(fields, template).contains_key(tags(template, "{{"@)[i]),
{
    blanks_cover(fields, tags(template, "{{"@), i);
}

proof fn blanks_cover(fields: Map<Seq<char>, JsonView>, keys: Seq<Seq<char>>, i: int)
    requires
        0 <= i < keys.len(),
        is_fillable(keys[i]),
    ensures
        with_blanks(fields, keys).contains_key(keys[i]),
    decreases keys.len(),
{
    if i < keys.len() - 1 {
        blanks_cover(fields, keys.drop_last(), i);
    }
}

/// Filling in adds nothing but empty texts.
pub proof fn filling_adds_empty_texts(
    fields: Map<Seq<char>, JsonView>,
    template: Seq<char>,
    key: Seq<char>,
)
    requires
        filled_fields(fields, template).contains_key(key),
        !fields.contains_key(key),
    ensures
        filled_fields(fields, template)[key] == JsonView::Text(seq![]),
        is_fillable(key),
{
    blanks_are_empty(fields, tags(template, "{{"@), key);
}

proof fn blanks_are_empty(fields: Map<Seq<char>, JsonView>, keys: Seq<Seq<char>>, key: Seq<char>)
    requires
        with_blanks(fields, keys).contains_key(key),
        !fields.contains_key(key),
    ensures
        with_blanks(fields, keys)[key] == JsonView::Text(seq![]),
        is_fillable(key),
    decreases keys.len(),
{
    if keys.len() > 0 {
        if with_blanks(fields, keys.drop_last()).contains_key(key) {
            blanks_are_empty(fields, keys.drop_last(), key);
        }
    }
}

/// `key` starts with `mark`.
pub open spec fn is_marked(key: Seq<char>, mark: Seq<char>) -> bool {
    text::occurs_at(key, mark, 0)
}

proof fn mark_is_prefix(mark: Seq<char>, rest: Seq<char>)
    ensures
        is_marked(mark + rest, mark),
{
    assert((mark + rest).subrange(0, mark.len() as int) =~= mark);
}

/// Setting split variables changes no field but those that start with `_x_`.
pub proof fn splitting_keeps_fields(
    fields: Map<Seq<char>, JsonView>,
    template: Seq<char>,
    key: Seq<char>,
)
    requires
        !is_marked(key, "_x_"@),
    ensures
        split_fields(fields, template).contains_key(key) == fields.contains_key(key),
        split_fields(fields, template)[key] == fields[key],
{
    splits_keep(fields, tags(template, "{{ _x_"@), key);
}

proof fn splits_keep(fields: Map<Seq<char>, JsonView>, keys: Seq<Seq<char>>, key: Seq<char>)
    requires
        !is_marked(key, "_x_"@),
    ensures
        with_splits(fields, keys).contains_key(key) == fields.contains_key(key),
        with_splits(fields, keys)[key] == fields[key],
    decreases keys.len(),
{
    if keys.len() > 0 {
        splits_keep(fields, keys.drop_last(), key);
        mark_is_prefix("_x_"@, keys.last());
    }
}

/// A split variable of a template holds the piece that it asks for of the field that
/// it names; empty where there is no such piece.
pub proof fn split_variable_is_set(
    fields: Map<Seq<char>, JsonView>,
    template: Seq<char>,
    i: int,
    k: SplitKey,
)
    requires
        0 <= i < tags(template, "{{ _x_"@).len(),
        split_key(tags(template, "{{ _x_"@)[i]) == Some(k),
        !is_marked(k.field, "_x_"@),
    ensures
        ({
            let name = "_x_"@ + tags(template, "{{ _x_"@)[i];
            let all = split_fields(fields, template);
            all.contains_key(name) && all[name] == JsonView::Text(
                piece_at(text::split(text_at(fields, k.field), k.separator), k.index),
            )
        }),
{
    split_is_set(fields, tags(template, "{{ _x_"@), i, k);
}

proof fn split_is_set(
    fields: Map<Seq<char>, JsonView>,
    keys: Seq<Seq<char>>,
    i: int,
    k: SplitKey,
)
    requires
        0 <= i < keys.len(),
        split_key(keys[i]) == Some(k),
        !is_marked(k.field, "_x_"@),
    ensures
        with_splits(fields, keys).contains_key("_x_"@ + keys[i]),
        with_splits(fields, keys)["_x_"@ + keys[i]] == JsonView::Text(
            piece_at(text::split(text_at(fields, k.field), k.separator), k.index),
        ),
    decreases keys.len(),
{
    splits_keep(fields, keys.drop_last(), k.field);
    if i < keys.len() - 1 {
        split_is_set(fields, keys.drop_last(), i, k);
        if "_x_"@ + keys.last() == "_x_"@ + keys[i] {
            assert(("_x_"@ + keys.last()).skip("_x_"@.len() as int) =~= keys.last());
            assert(("_x_"@ + keys[i]).skip("_x_"@.len() as int) =~= keys[i]);
        }
    }
}

/// Setting image variables changes no field but those that start with `_qr_` or
/// `_bar_`.
pub proof fn drawing_keeps_fields(
    fields: Map<Seq<char>, JsonView>,
    template: Seq<char>,
    key: Seq<char>,
)
    requires
        !is_marked(key, image_mark(true)),
        !is_marked(key, image_mark(false)),
    ensures
        image_fields(fields, template).contains_key(key) == fields.contains_key(key),
        image_fields(fields, template)[key] == fields[key],
{
    let keys = tags(template, image_open(true));
    images_keep(fields, keys, true, key);
    images_keep(
        with_images(fields, keys, true),
        tags(template, image_open(false)),
        false,
        key,
    );
}

proof fn images_keep(
    fields: Map<Seq<char>, JsonView>,
    keys: Seq<Seq<char>>,
    qr: bool,
    key: Seq<char>,
)
    requires
        !is_marked(key, image_mark(qr)),
    ensures
        with_images(fields, keys, qr).contains_key(key) == fields.contains_key(key),
        with_images(fields, keys, qr)[key] == fields[key],
    decreases keys.len(),
{
    if keys.len() > 0 {
        images_keep(fields, keys.drop_last(), qr, key);
        mark_is_prefix(image_mark(qr), image_field(keys.last()));
    }
}

/// An image variable of a template holds the image of the field that it names.
pub proof fn image_variable_is_set(
    fields: Map<Seq<char>, JsonView>,
    template: Seq<char>,
    qr: bool,
    i: int,
)
    requires
        0 <= i < tags(template, image_open(qr)).len(),
        !is_marked(image_field(tags(template, image_open(qr))[i]), image_mark(true)),
        !is_marked(image_field(tags(template, image_open(qr))[i]), image_mark(false)),
    ensures
        ({
            let field = image_field(tags(template, image_open(qr))[i]);
            let name = image_mark(qr) + field;
            let all = image_fields(fields, template);
            all.contains_key(name) && all[name] == JsonView::Text(
                image_of(text_at(fields, field), qr),
            )
        }),
{
    let qr_keys = tags(template, image_open(true));
    let bar_keys = tags(template, image_open(false));
    let field = image_field(tags(template, image_open(qr))[i]);
    images_keep(fields, qr_keys, true, field);
    if qr {
        image_is_set(fields, qr_keys, true, i);
        reveal_strlit("_qr_");
        reveal_strlit("_bar_");
        let name = image_mark(true) + field;
        if is_marked(name, image_mark(false)) {
            assert(name.subrange(0, 5)[1] == name[1]);
        }
        images_keep(with_images(fields, qr_keys, true), bar_keys, false, name);
    } else {
        image_is_set(with_images(fields, qr_keys, true), bar_keys, false, i);
    }
}

proof fn image_is_set(
    fields: Map<Seq<char>, JsonView>,
    keys: Seq<Seq<char>>,
    qr: bool,
    i: int,
)
    requires
        0 <= i < keys.len(),
        !is_marked(image_field(keys[i]), image_mark(qr)),
    ensures
        with_images(fields, keys, qr).contains_key(image_mark(qr) + image_field(keys[i])),
        with_images(fields, keys, qr)[image_mark(qr) + image_field(keys[i])] == JsonView::Text(
            image_of(text_at(fields, image_field(keys[i])), qr),
        ),
    decreases keys.len(),
{
    let mark = image_mark(qr);
    let field = image_field(keys[i]);
    images_keep(fields, keys.drop_last(), qr, field);
    if i < keys.len() - 1 {
        image_is_set(fields, keys.drop_last(), qr, i);
        let other = image_field(keys.last());
        if mark + other == mark + field {
            assert((mark + other).skip(mark.len() as int) =~= other);
            assert((mark + field).skip(mark.len() as int) =~= field);
        }
    }
}

/// The segments of a QR text prevail over fields of the request.
pub proof fn segments_prevail(fields: Map<Seq<char>, JsonView>, parts: Seq<Seq<char>>, i: int)
    requires
        parts.len() >= 7,
        0 <= i < 7,
    ensures
        with_segments(fields, parts).contains_key(segment_keys()[i]),
        with_segments(fields, parts)[segment_keys()[i]] == JsonView::Text(parts[i]),
{
    segment_keys_differ();
}

/// Setting the segments changes no other field.
pub proof fn segments_keep_fields(
    fields: Map<Seq<char>, JsonView>,
    parts: Seq<Seq<char>>,
    key: Seq<char>,
)
    requires
        !segment_keys().contains(key),
    ensures
        with_segments(fields, parts).contains_key(key) == fields.contains_key(key),
        with_segments(fields, parts)[key] == fields[key],
{
    let keys = segment_keys();
    assert forall|i: int| 0 <= i < 7 implies keys[i] != key by {
        assert(keys.contains(keys[i]));
    }
    assert(keys[0] != key && keys[1] != key && keys[2] != key && keys[3] != key && keys[4] != key
        && keys[5] != key && keys[6] != key);
}

proof fn segment_keys_differ()
    ensures
        forall|i: int, j: int|
            0 <= i < j < 7 ==> #[trigger] segment_keys()[i] != #[trigger] segment_keys()[j],
{
    reveal_strlit("material_no");
    reveal_strlit("lot_no");
    reveal_strlit("order_no");
    reveal_strlit("count");
    reveal_strlit("vender_code");
    reveal_strlit("date");
    reveal_strlit("box_no");
    let keys = segment_keys();
    assert(keys[0][0] == 'm' && keys[1][0] == 'l' && keys[2][0] == 'o' && keys[3][0] == 'c'
        && keys[4][0] == 'v' && keys[5][0] == 'd' && keys[6][0] == 'b');
}

/// No segment of a QR text is a variable of a template, nor the QR code.
pub proof fn segment_keys_are_plain(i: int)
    requires
        0 <= i < 7,
    ensures
        !is_marked(segment_keys()[i], "_x_"@),
        !is_marked(segment_keys()[i], image_mark(true)),
        !is_marked(segment_keys()[i], image_mark(false)),
        segment_keys()[i] != "qr_code"@,
{
    reveal_strlit("material_no");
    reveal_strlit("lot_no");
    reveal_strlit("order_no");
    reveal_strlit("count");
    reveal_strlit("vender_code");
    reveal_strlit("date");
    reveal_strlit("box_no");
    reveal_strlit("qr_code");
    reveal_strlit("_x_");
    reveal_strlit("_qr_");
    reveal_strlit("_bar_");
    let key = segment_keys()[i];
    assert(key[0] != '_' && key[0] != 'q');
    assert(key.subrange(0, 3)[0] == key[0]);
    assert(key.subrange(0, 4)[0] == key[0]);
    if key.len() >= 5 {
        assert(key.subrange(0, 5)[0] == key[0]);
    }
}

/// The fields of a request are texts, numbers and flags.
pub proof fn requests_give_scalars(label: JsonView, as_text: bool)
    ensures
        are_scalars(label_fields(label, as_text)),
{
}

/// Setting segments and a QR code leaves the fields texts, numbers and flags.
pub proof fn segments_keep_scalars(
    fields: Map<Seq<char>, JsonView>,
    parts: Seq<Seq<char>>,
    uri: Result<Seq<char>, ErrorView>,
)
    requires
        are_scalars(fields),
    ensures
        are_scalars(with_segments(fields, parts)),
        with_qr_code(fields, uri) matches Ok(all) ==> are_scalars(all),
{
}

/// The passes over a template leave the fields texts, numbers and flags.
pub proof fn passes_keep_scalars(fields: Map<Seq<char>, JsonView>, template: Seq<char>)
    requires
        are_scalars(fields),
    ensures
        are_scalars(split_fields(fields, template)),
        are_scalars(image_fields(fields, template)),
        are_scalars(filled_fields(fields, template)),
{
    splits_keep_scalars(fields, tags(template, "{{ _x_"@));
    images_keep_scalars(fields, tags(template, image_open(true)), true);
    images_keep_scalars(
        with_images(fields, tags(template, image_open(true)), true),
        tags(template, image_open(false)),
        false,
    );
    blanks_keep_scalars(fields, tags(template, "{{"@));
}

proof fn splits_keep_scalars(fields: Map<Seq<char>, JsonView>, keys: Seq<Seq<char>>)
    requires
        are_scalars(fields),
    ensures
        are_scalars(with_splits(fields, keys)),
    decreases keys.len(),
{
    if keys.len() > 0 {
        splits_keep_scalars(fields, keys.drop_last());
    }
}

proof fn images_keep_scalars(fields: Map<Seq<char>, JsonView>, keys: Seq<Seq<char>>, qr: bool)
    requires
        are_scalars(fields),
    ensures
        are_scalars(with_images(fields, keys, qr)),
    decreases keys.len(),
{
    if keys.len() > 0 {
        images_keep_scalars(fields, keys.drop_last(), qr);
    }
}

proof fn blanks_keep_scalars(fields: Map<Seq<char>, JsonView>, keys: Seq<Seq<char>>)
    requires
        are_scalars(fields),
    ensures
        are_scalars(with_blanks(fields, keys)),
    decreases keys.len(),
{
    if keys.len() > 0 {
        blanks_keep_scalars(fields, keys.drop_last());
    }
}

// ---------------------------------------------------------------------------
// What the fields are for
// ---------------------------------------------------------------------------

/// The placeholders of a template are read one after the other: what stands between the
/// opening and the next `}}`, without white space at its ends, and then those of the rest.
#[verifier::spinoff_prover]
#[verifier::rlimit(50)]
pub proof fn placeholders_are_read_in_order(
    before: Seq<char>,
    open: Seq<char>,
    inner: Seq<char>,
    rest: Seq<char>,
)
    requires
        open.len() > 0,
        text::first_at(before + open + inner + seq!['}', '}'] + rest, open, before.len() as int),
        text::first_at(inner + seq!['}', '}'] + rest, seq!['}', '}'], inner.len() as int),
    ensures
        tags(before + open + inner + seq!['}', '}'] + rest, open) == seq![text::trim(inner)]
            + tags(rest, open),
{
    let close = seq!['}', '}'];
    let s = before + open + inner + close + rest;
    let after = inner + close + rest;
    placeholder_parts(before, open, inner, close, rest);
    next_placeholder(s, open, before.len() as int, after, inner, rest);
}

proof fn placeholder_parts(
    before: Seq<char>,
    open: Seq<char>,
    inner: Seq<char>,
    close: Seq<char>,
    rest: Seq<char>,
)
    ensures
        (before + open + inner + close + rest).skip(before.len() as int + open.len()) == inner
            + close + rest,
        (inner + close + rest).take(inner.len() as int) == inner,
        (inner + close + rest).skip(inner.len() as int + close.len()) == rest,
{
    let after = inner + close + rest;
    let s = before + open + inner + close + rest;
    assert(s.skip(before.len() as int + open.len()) =~= after);
    assert(after.take(inner.len() as int) =~= inner);
    assert(after.skip(inner.len() as int + close.len()) =~= rest);
}

proof fn next_placeholder(
    s: Seq<char>,
    open: Seq<char>,
    i: int,
    after: Seq<char>,
    inner: Seq<char>,
    rest: Seq<char>,
)
    requires
        text::first_at(s, open, i),
        s.skip(i + open.len()) == after,
        text::first_at(after, seq!['}', '}'], inner.len() as int),
        after.take(inner.len() as int) == inner,
        after.skip(inner.len() as int + 2) == rest,
    ensures
        tags(s, open) == seq![text::trim(inner)] + tags(rest, open),
{
    text::find_is_first(s, open, i);
    text::find_is_first(after, seq!['}', '}'], inner.len() as int);
}

/// A template without an opening has no placeholders.
pub proof fn no_opening_no_placeholder(s: Seq<char>, open: Seq<char>)
    requires
        !text::occurs(s, open),
    ensures
        tags(s, open).len() == 0,
{
    text::find_none(s, open);
}

/// A key that is none of the segments of a QR text, nor the QR code.
pub open spec fn is_no_segment(key: Seq<char>) -> bool {
    &&& key != "material_no"@
    &&& key != "lot_no"@
    &&& key != "order_no"@
    &&& key != "count"@
    &&& key != "vender_code"@
    &&& key != "date"@
    &&& key != "box_no"@
    &&& key != "qr_code"@
}

/// A key that is no variable of a template.
pub open spec fn is_no_variable(key: Seq<char>) -> bool {
    &&& !text::occurs_at(key, "_x_"@, 0)
    &&& !text::occurs_at(key, "_qr_"@, 0)
    &&& !text::occurs_at(key, "_bar_"@, 0)
}

/// The fields that a request gives keep their values: a text, a number or a flag stays what
/// it is, or becomes the text that it is written with.
pub proof fn request_fields_keep_their_values(m: Map<Seq<char>, JsonView>, key: Seq<char>)
    requires
        m.contains_key(key),
    ensures
        ({
            let kept = label_fields(JsonView::Object(m), false);
            let shown_as_text = label_fields(JsonView::Object(m), true);
            match m[key] {
                JsonView::Text(s) => kept.contains_key(key) && kept[key] == m[key]
                    && shown_as_text.contains_key(key) && shown_as_text[key] == JsonView::Text(s),
                JsonView::Number(s) => kept.contains_key(key) && kept[key] == m[key]
                    && shown_as_text.contains_key(key) && shown_as_text[key] == JsonView::Text(s),
                JsonView::Bool(b) => kept.contains_key(key) && kept[key] == m[key]
                    && shown_as_text.contains_key(key) && shown_as_text[key] == JsonView::Text(
                    if b {
                        "true"@
                    } else {
                        "false"@
                    },
                ),
                _ => !kept.contains_key(key) && !shown_as_text.contains_key(key),
            }
        }),
{
}

/// A request gives no field that it does not hold.
pub proof fn requests_give_no_other_fields(label: JsonView, as_text: bool, key: Seq<char>)
    ensures
        label_fields(label, as_text).contains_key(key) ==> json::field(label, key) is Some,
{
}

/// The seven texts that were joined with bars are the material, the lot, the order, the
/// count, the vendor, the date and the box, in this order; what follows them counts for
/// nothing. Every other field stays.
pub proof fn segments_are_the_joined_texts(
    fields: Map<Seq<char>, JsonView>,
    parts: Seq<Seq<char>>,
    key: Seq<char>,
)
    requires
        parts.len() >= 7,
        forall|i: int| 0 <= i < parts.len() ==> text::lacks(#[trigger] parts[i], '|'),
    ensures
        segments(text::rejoined(parts, seq!['|'])).len() >= 7,
        ({
            let all = with_segments(fields, segments(text::rejoined(parts, seq!['|'])));
            &&& holds_text(all, "material_no"@, parts[0])
            &&& holds_text(all, "lot_no"@, parts[1])
            &&& holds_text(all, "order_no"@, parts[2])
            &&& holds_text(all, "count"@, parts[3])
            &&& holds_text(all, "vender_code"@, parts[4])
            &&& holds_text(all, "date"@, parts[5])
            &&& holds_text(all, "box_no"@, parts[6])
            &&& is_no_segment(key) ==> all.contains_key(key) == fields.contains_key(key)
                && all[key] == fields[key]
        }),
{
    text::splitting_undoes_joining(parts, '|');
    assert forall|i: int| 0 <= i < 7 implies with_segments(fields, parts).contains_key(
        #[trigger] segment_keys()[i],
    ) && with_segments(fields, parts)[segment_keys()[i]] == JsonView::Text(parts[i]) by {
        segments_prevail(fields, parts, i);
    }
    let keys = segment_keys();
    assert(keys[0] == "material_no"@ && keys[1] == "lot_no"@ && keys[2] == "order_no"@);
    assert(keys[3] == "count"@ && keys[4] == "vender_code"@ && keys[5] == "date"@);
    assert(keys[6] == "box_no"@);
    if is_no_segment(key) {
        no_segment_is_apart(fields, parts, key);
    }
}

/// The field `key` is the text `s`.
pub open spec fn holds_text(
    fields: Map<Seq<char>, JsonView>,
    key: Seq<char>,
    s: Seq<char>,
) -> bool {
    fields.contains_key(key) && fields[key] == JsonView::Text(s)
}

/// Setting the segments leaves a key that is none of them alone.
pub proof fn no_segment_is_apart(
    fields: Map<Seq<char>, JsonView>,
    parts: Seq<Seq<char>>,
    key: Seq<char>,
)
    requires
        is_no_segment(key),
    ensures
        with_segments(fields, parts).contains_key(key) == fields.contains_key(key),
        with_segments(fields, parts)[key] == fields[key],
{
    let keys = segment_keys();
    if keys.contains(key) {
        let i = choose|i: int| 0 <= i < keys.len() && keys[i] == key;
        assert(i == 0 || i == 1 || i == 2 || i == 3 || i == 4 || i == 5 || i == 6);
    }
    segments_keep_fields(fields, parts, key);
}

/// How many bars stand in a text.
pub open spec fn bars_in(s: Seq<char>) -> nat
    decreases s.len(),
{
    if s.len() == 0 {
        0
    } else {
        bars_in(s.skip(1)) + if s[0] == '|' {
            1nat
        } else {
            0nat
        }
    }
}

/// A QR text has one segment more than bars.
pub proof fn segments_are_one_more_than_bars(s: Seq<char>)
    ensures
        segments(s).len() == bars_in(s) + 1,
    decreases s.len(),
{
    text::lacking_is_no_occurrence(s, '|');
    match text::find(s, seq!['|']) {
        None => {
            no_bars(s, s.len() as int);
            assert(s.skip(s.len() as int) =~= seq![]);
        },
        Some(i) => {
            assert(text::first_at(s, seq!['|'], i));
            let tail = s.skip(i + 1);
            segments_are_one_more_than_bars(tail);
            assert(text::split(tail, seq!['|']).len() == bars_in(tail) + 1);
            assert(seq!['|'].len() == 1);
            assert forall|k: int| 0 <= k < i implies #[trigger] s[k] != '|' by {
                if s[k] == '|' {
                    assert(s.subrange(k, k + 1) =~= seq!['|']);
                    assert(text::occurs_at(s, seq!['|'], k));
                }
            }
            no_bars(s, i);
            assert(s.subrange(i, i + 1)[0] == s[i]);
            assert(s.skip(i).skip(1) =~= tail);
            assert(bars_in(s.skip(i)) == bars_in(tail) + 1);
        },
    }
}

proof fn no_bars(s: Seq<char>, n: int)
    requires
        0 <= n <= s.len(),
        forall|k: int| 0 <= k < n ==> #[trigger] s[k] != '|',
    ensures
        bars_in(s) == bars_in(s.skip(n)),
    decreases n,
{
    if n > 0 {
        let rest = s.skip(1);
        assert forall|k: int| 0 <= k < n - 1 implies #[trigger] rest[k] != '|' by {
            assert(rest[k] == s[k + 1]);
        }
        no_bars(rest, n - 1);
        assert(rest.skip(n - 1) =~= s.skip(n));
    } else {
        assert(s.skip(0) =~= s);
    }
}

/// What a split variable asks for is read from its name: the field, the separator in
/// hexadecimal and the index in decimal.
pub proof fn split_names_are_read(field: Seq<char>, separator: Seq<char>, index: int)
    requires
        separator.len() > 0,
        0 <= index <= usize::MAX,
    ensures
        split_key(split_name(field, separator, index)) == Some(SplitKey { field, separator, index }),
{
    let hexes = hex::encoded(vstd::utf8::encode_utf8(separator));
    separators_are_read(separator);
    decimal::decimal_is_digits(index);
    decimal::decimal_reads_back(index, 0, usize::MAX as int);
    split_parts_are_read(field, hexes, decimal::decimal(index), separator, index);
}

/// A separator is read from the hexadecimal digits of its bytes.
pub proof fn separators_are_read(separator: Seq<char>)
    requires
        separator.len() > 0,
    ensures
        separator_of(hex::encoded(vstd::utf8::encode_utf8(separator))) == Some(separator),
        text::lacks(hex::encoded(vstd::utf8::encode_utf8(separator)), '_'),
{
    let bytes = vstd::utf8::encode_utf8(separator);
    vstd::utf8::encode_utf8_valid_utf8(separator);
    vstd::utf8::encode_utf8_decode_utf8(separator);
    hex::decoding_undoes_encoding(bytes);
    hex::encoding_is_digits(bytes);
}

proof fn split_parts_are_read(
    field: Seq<char>,
    hexes: Seq<char>,
    number: Seq<char>,
    separator: Seq<char>,
    index: int,
)
    requires
        text::lacks(hexes, '_'),
        text::lacks(number, '_'),
        separator_of(hexes) == Some(separator),
        decimal::parsed(number, 0, usize::MAX as int) == Some(index),
    ensures
        split_key(field + seq!['_'] + hexes + seq!['_'] + number) == Some(
            SplitKey { field, separator, index },
        ),
{
    text::last_behind(field + seq!['_'] + hexes, '_', number);
    text::last_behind(field, '_', hexes);
}

/// The name of a split variable.
pub open spec fn split_name(field: Seq<char>, separator: Seq<char>, index: int) -> Seq<char> {
    field + seq!['_'] + hex::encoded(vstd::utf8::encode_utf8(separator)) + seq!['_']
        + decimal::decimal(index)
}

/// A placeholder that asks for a piece of a field shows that piece of its text, where the
/// text is split at the separator, and nothing where there is no such piece or field.
pub proof fn split_placeholder_shows_the_piece(
    fields: Map<Seq<char>, JsonView>,
    template: Seq<char>,
    i: int,
    field: Seq<char>,
    separator: Seq<char>,
    index: int,
    value: Seq<char>,
)
    requires
        0 <= i < tags(template, "{{ _x_"@).len(),
        separator.len() > 0,
        0 <= index <= usize::MAX,
        tags(template, "{{ _x_"@)[i] == split_name(field, separator, index),
        !text::occurs_at(field, "_x_"@, 0),
    ensures
        ({
            let name = "_x_"@ + split_name(field, separator, index);
            let all = split_fields(fields, template);
            let pieces = text::split(value, separator);
            &&& holds_text(fields, field, value) && index < pieces.len() ==> holds_text(
                all,
                name,
                pieces[index],
            )
            &&& holds_text(fields, field, value) && index >= pieces.len() ==> holds_text(
                all,
                name,
                seq![],
            )
            &&& !fields.contains_key(field) ==> holds_text(all, name, seq![])
        }),
{
    let k = SplitKey { field, separator, index };
    split_names_are_read(field, separator, index);
    split_variable_is_set(fields, template, i, k);
    if !fields.contains_key(field) {
        let none = Seq::<char>::empty();
        assert forall|j: int| !text::first_at(none, separator, j) by {}
        assert(text::split(none, separator) =~= seq![none]);
        assert(text_at(fields, field) =~= none);
    }
}

/// The field that an image variable names is what stands before a filter, without a space.
#[verifier::spinoff_prover]
#[verifier::rlimit(50)]
pub proof fn image_names_are_read(field: Seq<char>, filter: Seq<char>)
    requires
        text::lacks(field, '|'),
        field.len() > 0 ==> !text::is_white(field[0]) && !text::is_white(field[field.len() - 1]),
    ensures
        image_field(field) == field,
        image_field(field + seq![' ', '|'] + filter) == field,
        image_field(field + seq!['|'] + filter) == field,
{
    let padded = field + seq![' '];
    text::trimming_keeps_the_core(field);
    assert(text::lacks(padded, '|')) by {
        assert forall|k: int| 0 <= k < padded.len() implies #[trigger] padded[k] != '|' by {
            if k < field.len() {
                assert(padded[k] == field[k]);
            }
        }
    }
    name_ends_at_the_bar(field, filter);
    name_ends_at_the_bar(padded, filter);
    assert(padded + seq!['|'] + filter =~= field + seq![' ', '|'] + filter);
}

proof fn name_ends_at_the_bar(name: Seq<char>, filter: Seq<char>)
    requires
        text::lacks(name, '|'),
    ensures
        image_field(name) == text::trim(name),
        image_field(name + seq!['|'] + filter) == text::trim(name),
{
    text::lacking_is_no_occurrence(name, '|');
    text::first_behind(name, '|', filter);
    assert(text::split(name, seq!['|'])[0] == name);
    assert(text::split(name + seq!['|'] + filter, seq!['|'])[0] == name);
}

/// The placeholder of an image variable names `field`, with or without a filter.
pub open spec fn names_image(tag: Seq<char>, field: Seq<char>, filter: Seq<char>) -> bool {
    &&& text::lacks(field, '|')
    &&& field.len() > 0
    &&& !text::is_white(field[0])
    &&& !text::is_white(field[field.len() - 1])
    &&& !text::occurs_at(field, "_qr_"@, 0)
    &&& !text::occurs_at(field, "_bar_"@, 0)
    &&& tag == field || tag == field + seq![' ', '|'] + filter || tag == field + seq!['|']
        + filter
}

/// A placeholder that asks for the QR code of a field shows the QR code of its text as an
/// image element, and nothing where the text is empty or missing or no QR code can hold it.
pub proof fn qr_placeholder_shows_the_qr_code(
    fields: Map<Seq<char>, JsonView>,
    template: Seq<char>,
    i: int,
    field: Seq<char>,
    filter: Seq<char>,
    value: Seq<char>,
)
    requires
        0 <= i < tags(template, "{{ _qr_"@).len(),
        names_image(tags(template, "{{ _qr_"@)[i], field, filter),
    ensures
        ({
            let all = image_fields(fields, template);
            &&& holds_text(fields, field, value) && value.len() > 0 ==> match codec::qr_uri(value) {
                Ok(uri) => holds_text(
                    all,
                    "_qr_"@ + field,
                    "<img src=\""@ + uri
                        + "\" style=\"width:100%;height:100%;object-fit:contain\">"@,
                ),
                Err(_) => holds_text(all, "_qr_"@ + field, seq![]),
            }
            &&& holds_text(fields, field, seq![]) || !fields.contains_key(field) ==> holds_text(
                all,
                "_qr_"@ + field,
                seq![],
            )
        }),
{
    image_names_are_read(field, filter);
    image_variable_is_set(fields, template, true, i);
}

/// A placeholder that asks for the bar code of a field shows the bar code of its text as an
/// image element, and nothing where the text is empty or missing or no bar code can hold it.
pub proof fn bar_placeholder_shows_the_bar_code(
    fields: Map<Seq<char>, JsonView>,
    template: Seq<char>,
    i: int,
    field: Seq<char>,
    filter: Seq<char>,
    value: Seq<char>,
)
    requires
        0 <= i < tags(template, "{{ _bar_"@).len(),
        names_image(tags(template, "{{ _bar_"@)[i], field, filter),
    ensures
        ({
            let all = image_fields(fields, template);
            &&& holds_text(fields, field, value) && value.len() > 0 ==> match codec::barcode_uri(
                value,
            ) {
                Ok(uri) => holds_text(
                    all,
                    "_bar_"@ + field,
                    "<img src=\""@ + uri
                        + "\" style=\"width:100%;height:100%;object-fit:contain\">"@,
                ),
                Err(_) => holds_text(all, "_bar_"@ + field, seq![]),
            }
            &&& holds_text(fields, field, seq![]) || !fields.contains_key(field) ==> holds_text(
                all,
                "_bar_"@ + field,
                seq![],
            )
        }),
{
    image_names_are_read(field, filter);
    image_variable_is_set(fields, template, false, i);
}

/// A name that may stand in a placeholder on its own: letters, digits and underscores, no
/// digit first, and no split variable.
pub open spec fn is_plain_name(key: Seq<char>) -> bool {
    &&& key.len() > 0
    &&& !('0' <= key[0] <= '9')
    &&& forall|i: int|
        0 <= i < key.len() ==> 'a' <= #[trigger] key[i] <= 'z' || 'A' <= key[i] <= 'Z' || '0'
            <= key[i] <= '9' || key[i] == '_'
    &&& !text::occurs_at(key, "_x_"@, 0)
}

/// A placeholder without a field gets an empty text, and nothing else is filled in.
pub proof fn missing_fields_are_blank(
    fields: Map<Seq<char>, JsonView>,
    template: Seq<char>,
    i: int,
    key: Seq<char>,
)
    requires
        0 <= i < tags(template, "{{"@).len(),
    ensures
        ({
            let tag = tags(template, "{{"@)[i];
            let all = filled_fields(fields, template);
            &&& is_plain_name(tag) && !fields.contains_key(tag) ==> holds_text(all, tag, seq![])
            &&& fields.contains_key(key) ==> all.contains_key(key) && all[key] == fields[key]
            &&& all.contains_key(key) && !fields.contains_key(key) ==> is_plain_name(key)
                && holds_text(all, key, seq![])
        }),
{
    let tag = tags(template, "{{"@)[i];
    let all = filled_fields(fields, template);
    if is_plain_name(tag) {
        assert(text::is_ascii_letter(tag[0]) || tag[0] == '_');
        assert forall|j: int| 0 <= j < tag.len() implies text::is_ascii_alphanumeric(
            #[trigger] tag[j],
        ) || tag[j] == '_' by {}
        filling_covers_placeholders(fields, template, i);
        if !fields.contains_key(tag) {
            filling_adds_empty_texts(fields, template, tag);
        }
    }
    if fields.contains_key(key) {
        filling_keeps_fields(fields, template, key);
    } else if all.contains_key(key) {
        filling_adds_empty_texts(fields, template, key);
        assert forall|j: int| 0 <= j < key.len() implies 'a' <= #[trigger] key[j] <= 'z' || 'A'
            <= key[j] <= 'Z' || '0' <= key[j] <= '9' || key[j] == '_' by {
            assert(text::is_ascii_alphanumeric(key[j]) || key[j] == '_');
        }
    }
}

/// The fields that a function returns are those that its result holds.
pub proof fn returned_fields_are_held(
    fields: serde_json::Map<std::string::String, serde_json::Value>,
    e: CustomError,
)
    ensures
        fields_result(Ok(fields)) == Ok::<Map<Seq<char>, JsonView>, ErrorView>(
            json::fields_of(fields),
        ),
        fields_result(Err(e)) == Err::<Map<Seq<char>, JsonView>, ErrorView>(e@),
{
}

/// Only texts are read from a field: any other value, and a field that is missing, counts
/// as an empty text.
pub proof fn only_texts_are_read(fields: Map<Seq<char>, JsonView>, key: Seq<char>, value: Seq<char>)
    ensures
        fields.contains_key(key) && fields[key] == JsonView::Text(value) ==> text_at(fields, key)
            == value,
        fields.contains_key(key) && !(fields[key] is Text) ==> text_at(fields, key).len() == 0,
        !fields.contains_key(key) ==> text_at(fields, key).len() == 0,
{
}

/// A text, a number and a flag are written as they are.
pub proof fn scalars_are_written(s: Seq<char>, items: Seq<JsonView>, m: Map<Seq<char>, JsonView>)
    ensures
        scalar_text(JsonView::Text(s)) == s,
        scalar_text(JsonView::Number(s)) == s,
        scalar_text(JsonView::Bool(true)) == seq!['t', 'r', 'u', 'e'],
        scalar_text(JsonView::Bool(false)) == seq!['f', 'a', 'l', 's', 'e'],
        scalar_text(JsonView::Null).len() == 0,
        scalar_text(JsonView::Array(items)).len() == 0,
        scalar_text(JsonView::Object(m)).len() == 0,
{
    reveal_strlit("true");
    reveal_strlit("false");
    assert("true"@ =~= seq!['t', 'r', 'u', 'e']);
    assert("false"@ =~= seq!['f', 'a', 'l', 's', 'e']);
}

/// An image element shows that very picture and fills the place it has; without a picture
/// there is none.
pub proof fn image_elements_show_the_picture(uri: Seq<char>, e: ErrorView)
    ensures
        image_element(Ok(uri)) == "<img src=\""@ + uri
            + "\" style=\"width:100%;height:100%;object-fit:contain\">"@,
        image_element(Err(e)).len() == 0,
{
}

/// What is said of a text with too few segments names the text.
pub proof fn short_texts_are_named(qr_text: Seq<char>)
    ensures
        too_few_segments(qr_text) == ErrorView::OtherLibraryError(
            "qr_string 分段不足（需要 7 段）: "@ + qr_text,
        ),
{
}

/// The name of a variable begins with a letter or an underscore, and has letters, digits and
/// underscores only.
pub proof fn identifiers_are_plain(first: char, rest: Seq<char>)
    requires
        forall|i: int|
            0 <= i < rest.len() ==> {
                let c = #[trigger] rest[i];
                ('0' <= c && c <= '9') || ('a' <= c && c <= 'z') || ('A' <= c && c <= 'Z') || c
                    == '_'
            },
    ensures
        is_identifier(seq![first] + rest) <==> ('a' <= first && first <= 'z') || ('A' <= first
            && first <= 'Z') || first == '_',
        !is_identifier(seq![]),
{
    let name = seq![first] + rest;
    assert forall|i: int| 0 < i < name.len() implies text::is_ascii_alphanumeric(
        #[trigger] name[i],
    ) || name[i] == '_' by {
        assert(name[i] == rest[i - 1]);
    }
}

/// A name with any other character in it is none of a variable.
pub proof fn other_characters_make_no_identifier(key: Seq<char>, i: int)
    requires
        0 <= i < key.len(),
        !('0' <= key[i] && key[i] <= '9'),
        !('a' <= key[i] && key[i] <= 'z'),
        !('A' <= key[i] && key[i] <= 'Z'),
        key[i] != '_',
    ensures
        !is_identifier(key),
{
}

/// A name is none of a split variable where its index is no number, where its separator
/// cannot be read, or where it lacks a part.
pub proof fn other_names_are_no_split_names(field: Seq<char>, hexes: Seq<char>, number: Seq<char>)
    requires
        text::lacks(hexes, '_'),
        text::lacks(number, '_'),
    ensures
        decimal::parsed(number, 0, usize::MAX as int) is None || separator_of(hexes) is None
            ==> split_key(field + seq!['_'] + hexes + seq!['_'] + number) is None,
        split_key(hexes + seq!['_'] + number) is None,
        split_key(number) is None,
        separator_of(seq![]) is None,
        hex::decoded(hexes) is None ==> separator_of(hexes) is None,
        hex::decoded(hexes) matches Some(bytes) && !vstd::utf8::valid_utf8(bytes) ==> separator_of(
            hexes,
        ) is None,
{
    text::last_behind(field + seq!['_'] + hexes, '_', number);
    text::last_behind(field, '_', hexes);
    text::last_behind(hexes, '_', number);
    text::last_index_is_last(hexes, '_');
    text::last_index_is_last(number, '_');
    let none = Seq::<char>::empty();
    if let Some(bytes) = hex::decoded(none) {
        assert(bytes.len() == 0);
        vstd::utf8::encode_utf8_decode_utf8(none);
        assert(vstd::utf8::decode_utf8(bytes).len() == 0);
    }
}

} // verus!
