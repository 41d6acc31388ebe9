//! JSON values, and the outside functions that read and write them.
use vstd::prelude::*;

use crate::decimal;
use crate::text;

verus! {

/// What a JSON value says. A number is known by its text.
pub enum JsonView {
    Null,
    Bool(bool),
    Number(Seq<char>),
    Text(Seq<char>),
    Array(Seq<JsonView>),
    Object(Map<Seq<char>, JsonView>),
}

/// A JSON value. Where an object names a key twice, the later field counts.
#[derive(Debug)]
pub enum Json {
    Null,
    Bool(bool),
    Number(serde_json::Number),
    Text(String),
    Array(Vec<Json>),
    Object(Vec<(String, Json)>),
}

/// What `json` says.
pub open spec fn json_view(json: Json) -> JsonView
    decreases json,
{
    match json {
        Json::Null => JsonView::Null,
        Json::Bool(b) => JsonView::Bool(b),
        Json::Number(n) => JsonView::Number(number_text(n)),
        Json::Text(s) => JsonView::Text(s@),
        Json::Array(items) => JsonView::Array(items_view(items@)),
        Json::Object(fields) => JsonView::Object(fields_view(fields@)),
    }
}

/// What the items of an array say.
pub open spec fn items_view(items: Seq<Json>) -> Seq<JsonView>
    decreases items,
{
    if items.len() == 0 {
        seq![]
    } else {
        items_view(items.drop_last()).push(json_view(items.last()))
    }
}

/// What the fields of an object say, by key.
pub open spec fn fields_view(fields: Seq<(String, Json)>) -> Map<Seq<char>, JsonView>
    decreases fields,
{
    if fields.len() == 0 {
        Map::empty()
    } else {
        fields_view(fields.drop_last()).insert(fields.last().0@, json_view(fields.last().1))
    }
}

impl View for Json {
    type V = JsonView;

    open spec fn view(&self) -> JsonView {
        json_view(*self)
    }
}

// ---------------------------------------------------------------------------
// The outside types and functions
// ---------------------------------------------------------------------------

/// A JSON number of `serde_json`.
#[verifier::external_type_specification]
#[verifier::external_body]
pub struct ExNumber(serde_json::Number);

/// A JSON value of `serde_json`.
#[verifier::external_type_specification]
#[verifier::external_body]
pub struct ExValue(serde_json::Value);

/// The object type of `serde_json`.
#[verifier::external_type_specification]
#[verifier::external_body]
#[verifier::reject_recursive_types(K)]
#[verifier::reject_recursive_types(V)]
pub struct ExMap<K, V>(serde_json::Map<K, V>);

/// The decimal text of a `serde_json` number.
pub uninterp spec fn number_text(n: serde_json::Number) -> Seq<char>;

/// What a `serde_json` value holds.
pub uninterp spec fn held(v: serde_json::Value) -> JsonView;

/// What a `serde_json` object holds, by key.
pub uninterp spec fn fields_of(map: serde_json::Map<std::string::String, serde_json::Value>) -> Map<
    Seq<char>,
    JsonView,
>;

/// How deep a `serde_json` value is nested.
pub uninterp spec fn nesting(v: serde_json::Value) -> nat;

/// What a `serde_json` value is made of.
pub enum Parts {
    Null,
    Bool(bool),
    Number(serde_json::Number),
    Text(String),
    Array(Vec<serde_json::Value>),
    Object(Vec<(String, serde_json::Value)>),
}

/// What the items of an array hold.
pub open spec fn held_items(values: Seq<serde_json::Value>) -> Seq<JsonView> {
    values.map_values(|v: serde_json::Value| held(v))
}

/// What the fields of an object hold, by key; a later field replaces an earlier one.
pub open spec fn held_fields(fields: Seq<(String, serde_json::Value)>) -> Map<Seq<char>, JsonView>
    decreases fields.len(),
{
    if fields.len() == 0 {
        Map::empty()
    } else {
        held_fields(fields.drop_last()).insert(fields.last().0@, held(fields.last().1))
    }
}

/// What a value that is made of these parts holds.
pub open spec fn parts_view(parts: Parts) -> JsonView {
    match parts {
        Parts::Null => JsonView::Null,
        Parts::Bool(b) => JsonView::Bool(b),
        Parts::Number(n) => JsonView::Number(number_text(n)),
        Parts::Text(s) => JsonView::Text(s@),
        Parts::Array(values) => JsonView::Array(held_items(values@)),
        Parts::Object(fields) => JsonView::Object(held_fields(fields@)),
    }
}

/// The values among the parts are nested less deep than `depth`.
pub open spec fn are_nested_less(parts: Parts, depth: nat) -> bool {
    match parts {
        Parts::Array(values) => forall|i: int|
            0 <= i < values@.len() ==> nesting(#[trigger] values@[i]) < depth,
        Parts::Object(fields) => forall|i: int|
            0 <= i < fields@.len() ==> nesting((#[trigger] fields@[i]).1) < depth,
        _ => true,
    }
}

/// What a JSON document says, or the message with which it is refused.
pub uninterp spec fn document(text: Seq<char>) -> Result<JsonView, Seq<char>>;

/// The compact JSON document that says `v`.
pub uninterp spec fn compact(v: JsonView) -> Seq<char>;

/// The indented JSON document that says `v`, or the message with which it is refused.
pub uninterp spec fn pretty(v: JsonView) -> Result<Seq<char>, Seq<char>>;

/// The outcome of reading a document that says `v`.
pub open spec fn says(v: JsonView) -> Result<JsonView, Seq<char>> {
    Ok(v)
}

/// What the outcome of reading a document holds.
pub open spec fn held_result(r: Result<serde_json::Value, String>) -> Result<JsonView, Seq<char>> {
    match r {
        Ok(v) => Ok(held(v)),
        Err(message) => Err(message@),
    }
}

/// An object without fields.
pub open spec fn no_fields() -> Map<Seq<char>, JsonView> {
    Map::empty()
}

/// A whole number of 64 bits, as it is written.
pub open spec fn is_whole(text: Seq<char>) -> bool {
    match decimal::parsed(text, i64::MIN as int, u64::MAX as int) {
        Some(n) => text == decimal::decimal(n),
        None => false,
    }
}

/// A decimal number of at most fifteen significant digits, with a point, an exponent or
/// both, which is its digits times ten to a power from -22 to 22.
pub open spec fn is_short_decimal(text: Seq<char>) -> bool {
    let run = if text.len() > 0 && text[0] == '-' {
        text.skip(1)
    } else {
        text
    };
    match text::find(run, seq!['e']) {
        Some(i) => match decimal::parsed(run.skip(i + 1), -1000, 1000) {
            Some(exponent) => {
                ||| is_short_fraction(run.take(i), exponent)
                ||| is_short_digits(run.take(i), exponent)
            },
            None => false,
        },
        None => is_short_fraction(run, 0),
    }
}

/// At most fifteen significant digits times ten to a power from -22 to 22.
pub open spec fn is_short_digits(digits: Seq<char>, power: int) -> bool {
    &&& 0 < digits.len()
    &&& decimal::all_digits(digits)
    &&& decimal::value_of(digits) < 1_000_000_000_000_000
    &&& -22 <= power <= 22
}

/// Digits around a point, times ten to the power `exponent`, which are short digits
/// without the point.
pub open spec fn is_short_fraction(run: Seq<char>, exponent: int) -> bool {
    match text::find(run, seq!['.']) {
        Some(point) => {
            let fraction = run.skip(point + 1);
            &&& 0 < point
            &&& 0 < fraction.len()
            &&& is_short_digits(run.take(point) + fraction, exponent - fraction.len())
        },
        None => false,
    }
}

/// The key that an object is not read back with: where it comes first, `serde_json` takes
/// the object for a document in a text.
pub const RAW_KEY: &'static str = "$serde_json::private::RawValue";

/// The `RAW_KEY` is longer than the keys of a message.
pub(crate) proof fn raw_key_is_long()
    ensures
        RAW_KEY@.len() == 30,
{
    reveal_strlit("$serde_json::private::RawValue");
}

/// A value whose numbers are whole or short decimals, whose objects do not have the
/// `RAW_KEY`, and which is nested less than `depth` times.
pub open spec fn is_exact(v: JsonView, depth: nat) -> bool
    decreases depth,
{
    match v {
        JsonView::Number(text) => is_whole(text) || is_short_decimal(text),
        JsonView::Array(items) => depth > 0 && forall|i: int|
            0 <= i < items.len() ==> is_exact(#[trigger] items[i], (depth - 1) as nat),
        JsonView::Object(fields) => {
            &&& depth > 0
            &&& !fields.contains_key(RAW_KEY@)
            &&& forall|k: Seq<char>| #[trigger]
                fields.contains_key(k) ==> is_exact(fields[k], (depth - 1) as nat)
        },
        _ => true,
    }
}

/// How deep a value may be nested that is read back as it was written.
pub const MAX_DEPTH: usize = 127;

/// A value that is read back as it was written: its numbers are whole or short decimals,
/// no object has the `RAW_KEY`, and it is not nested too deep.
pub open spec fn reads_back(v: JsonView) -> bool {
    is_exact(v, MAX_DEPTH as nat)
}

/// `serde_json::Number::to_string`: the text of the number.
#[verifier::external_body]
pub(crate) fn text_of_number(n: &serde_json::Number) -> (r: String)
    ensures
        r@ == number_text(*n),
{
    n.to_string()
}

/// `serde_json::Number::clone`: a number with the same text.
#[verifier::external_body]
fn copy_number(n: &serde_json::Number) -> (r: serde_json::Number)
    ensures
        number_text(r) == number_text(*n),
{
    n.clone()
}

/// The variants of `serde_json::Value`: a value that holds these parts. The fields of
/// an object are collected into a `serde_json::Map`, where a later field replaces an
/// earlier one of the same key.
#[verifier::external_body]
fn make_value(parts: Parts) -> (r: serde_json::Value)
    ensures
        held(r) == parts_view(parts),
{
    match parts {
        Parts::Null => serde_json::Value::Null,
        Parts::Bool(b) => serde_json::Value::Bool(b),
        Parts::Number(n) => serde_json::Value::Number(n),
        Parts::Text(s) => serde_json::Value::String(s),
        Parts::Array(values) => serde_json::Value::Array(values),
        Parts::Object(fields) => serde_json::Value::Object(fields.into_iter().collect()),
    }
}

/// The variants of `serde_json::Value`: the parts that a value holds, which are nested
/// less deep than the value itself.
#[verifier::external_body]
fn open_value(value: serde_json::Value) -> (r: Parts)
    ensures
        parts_view(r) == held(value),
        are_nested_less(r, nesting(value)),
{
    match value {
        serde_json::Value::Null => Parts::Null,
        serde_json::Value::Bool(b) => Parts::Bool(b),
        serde_json::Value::Number(n) => Parts::Number(n),
        serde_json::Value::String(s) => Parts::Text(s),
        serde_json::Value::Array(values) => Parts::Array(values),
        serde_json::Value::Object(fields) => Parts::Object(fields.into_iter().collect()),
    }
}

/// `serde_json::Value::as_str`: the text, where the value is one.
#[verifier::external_body]
pub(crate) fn value_text(value: &serde_json::Value) -> (r: Option<&str>)
    ensures
        match r {
            Some(s) => held(*value) == JsonView::Text(s@),
            None => !(held(*value) is Text),
        },
{
    value.as_str()
}

/// `serde_json::from_str` into a `serde_json::Value`; an error is given by its text.
#[verifier::external_body]
fn read_value(text: &str) -> (r: Result<serde_json::Value, String>)
    ensures
        document(text@) == held_result(r),
{
    serde_json::from_str(text).map_err(|error: serde_json::Error| error.to_string())
}

/// `serde_json::Value::to_string`. The document of a value whose numbers are whole or
/// short decimals, whose objects do not have the `RAW_KEY` and which is not nested too
/// deep is read back as that value: the digits of a short decimal and the power of ten
/// that they are multiplied or divided by are both exact, so one operation gives the
/// number that was written. (Another value may not be: a longer fraction can be read with
/// another last digit, an object that starts with the `RAW_KEY` is read as the document in
/// its field, and nesting is bounded.)
#[verifier::external_body]
fn write_value(value: &serde_json::Value) -> (r: String)
    ensures
        r@ == compact(held(*value)),
        reads_back(held(*value)) ==> document(r@) == says(held(*value)),
{
    value.to_string()
}

/// The document of a value that is read back is written, and says that value.
pub open spec fn is_read_back(r: Result<String, String>, v: JsonView) -> bool {
    reads_back(v) ==> (r matches Ok(text) && document(text@) == says(v))
}

/// `serde_json::to_string_pretty`; an error is given by its text. White space apart, the
/// document is the compact one, so it is read back as far as that one is.
#[verifier::external_body]
fn write_pretty(value: &serde_json::Value) -> (r: Result<String, String>)
    ensures
        pretty(held(*value)) == text::text_result(r),
        is_read_back(r, held(*value)),
{
    serde_json::to_string_pretty(value).map_err(|error| error.to_string())
}

/// `serde_json::Map::new`: an object without fields.
#[verifier::external_body]
pub(crate) fn new_fields() -> (r: serde_json::Map<std::string::String, serde_json::Value>)
    ensures
        fields_of(r) == no_fields(),
{
    serde_json::Map::new()
}

/// `serde_json::Map::insert`: sets the field of that key.
#[verifier::external_body]
pub(crate) fn insert_field(
    fields: &mut serde_json::Map<std::string::String, serde_json::Value>,
    key: String,
    value: serde_json::Value,
)
    ensures
        fields_of(*final(fields)) == fields_of(*old(fields)).insert(key@, held(value)),
{
    fields.insert(key, value);
}

/// `serde_json::Map::get`: the field of that key.
#[verifier::external_body]
pub(crate) fn get_field<'a>(
    fields: &'a serde_json::Map<std::string::String, serde_json::Value>,
    key: &str,
) -> (r: Option<&'a serde_json::Value>)
    ensures
        match r {
            Some(v) => fields_of(*fields).contains_key(key@) && held(*v) == fields_of(*fields)[key@],
            None => !fields_of(*fields).contains_key(key@),
        },
{
    fields.get(key)
}

// ---------------------------------------------------------------------------
// Values inside and outside
// ---------------------------------------------------------------------------

/// The `serde_json` value that says what `json` says.
pub(crate) fn to_value(json: &Json) -> (r: serde_json::Value)
    ensures
        held(r) == json@,
    decreases *json,
{
    match json {
        Json::Null => make_value(Parts::Null),
        Json::Bool(b) => make_value(Parts::Bool(*b)),
        Json::Number(n) => make_value(Parts::Number(copy_number(n))),
        Json::Text(s) => make_value(Parts::Text(s.clone())),
        Json::Array(items) => {
            let mut values: Vec<serde_json::Value> = Vec::new();
            let mut i: usize = 0;
            while i < items.len()
                invariant
                    *json == Json::Array(*items),
                    i <= items@.len(),
                    held_items(values@) == items_view(items@.take(i as int)),
                decreases items@.len() - i,
            {
                assert(items@.take(i + 1).drop_last() =~= items@.take(i as int));
                assert(items@.take(i + 1).last() == items@[i as int]);
                let ghost before = values@;
                assert(decreases_to!(*json => json->Array_0));
                let value = to_value(&items[i]);
                values.push(value);
                assert(held_items(values@) =~= held_items(before).push(held(value)));
                i += 1;
            }
            assert(items@.take(i as int) =~= items@);
            make_value(Parts::Array(values))
        },
        Json::Object(fields) => {
            let mut values: Vec<(String, serde_json::Value)> = Vec::new();
            let mut i: usize = 0;
            while i < fields.len()
                invariant
                    *json == Json::Object(*fields),
                    i <= fields@.len(),
                    held_fields(values@) == fields_view(fields@.take(i as int)),
                decreases fields@.len() - i,
            {
                assert(fields@.take(i + 1).drop_last() =~= fields@.take(i as int));
                assert(fields@.take(i + 1).last() == fields@[i as int]);
                let ghost before = values@;
                assert(decreases_to!(*json => json->Object_0));
                let value = to_value(&fields[i].1);
                values.push((fields[i].0.clone(), value));
                assert(values@.drop_last() =~= before);
                i += 1;
            }
            assert(fields@.take(i as int) =~= fields@);
            make_value(Parts::Object(values))
        },
    }
}

/// The value that says what a `serde_json` value holds.
pub(crate) fn from_value(value: serde_json::Value) -> (r: Json)
    ensures
        r@ == held(value),
    decreases nesting(value),
{
    let ghost depth = nesting(value);
    match open_value(value) {
        Parts::Null => Json::Null,
        Parts::Bool(b) => Json::Bool(b),
        Parts::Number(n) => Json::Number(n),
        Parts::Text(s) => Json::Text(s),
        Parts::Array(values) => {
            let ghost all = values@;
            let mut items: Vec<Json> = Vec::new();
            for v in it: values.into_iter()
                invariant
                    it.seq() == all,
                    depth == nesting(value),
                    forall|i: int| 0 <= i < all.len() ==> nesting(#[trigger] all[i]) < depth,
                    items_view(items@) == held_items(all.take(it.index() as int)),
            {
                let ghost before = items@;
                let ghost k = it.index() as int;
                assert(v == all[k]);
                items.push(from_value(v));
                assert(items@.drop_last() =~= before);
                assert(held_items(all.take(k + 1)) =~= held_items(all.take(k)).push(held(v)));
            }
            assert(all.take(all.len() as int) =~= all);
            Json::Array(items)
        },
        Parts::Object(values) => {
            let ghost all = values@;
            let mut fields: Vec<(String, Json)> = Vec::new();
            for field in it: values.into_iter()
                invariant
                    it.seq() == all,
                    depth == nesting(value),
                    forall|i: int| 0 <= i < all.len() ==> nesting((#[trigger] all[i]).1) < depth,
                    fields_view(fields@) == held_fields(all.take(it.index() as int)),
            {
                let ghost before = fields@;
                let ghost k = it.index() as int;
                assert(field == all[k]);
                let (key, v) = field;
                fields.push((key, from_value(v)));
                assert(fields@.drop_last() =~= before);
                assert(all.take(k + 1).drop_last() =~= all.take(k));
            }
            assert(all.take(all.len() as int) =~= all);
            Json::Object(fields)
        },
    }
}

// ---------------------------------------------------------------------------
// Reading values
// ---------------------------------------------------------------------------

/// The field `key` of an object.
pub open spec fn field(v: JsonView, key: Seq<char>) -> Option<JsonView> {
    match v {
        JsonView::Object(fields) => if fields.contains_key(key) {
            Some(fields[key])
        } else {
            None
        },
        _ => None,
    }
}

/// The text in the field `key` of an object.
pub open spec fn text_field(v: JsonView, key: Seq<char>) -> Option<Seq<char>> {
    match field(v, key) {
        Some(JsonView::Text(s)) => Some(s),
        _ => None,
    }
}

/// A text, a number or a flag.
pub open spec fn is_scalar(v: JsonView) -> bool {
    v is Text || v is Number || v is Bool
}

/// What several values say.
pub open spec fn views(list: Seq<Json>) -> Seq<JsonView> {
    list.map_values(|j: Json| j@)
}

/// What the items of an array say, one by one.
pub proof fn items_view_is_views(items: Seq<Json>)
    ensures
        items_view(items) == views(items),
    decreases items.len(),
{
    if items.len() > 0 {
        items_view_is_views(items.drop_last());
        assert(views(items) =~= views(items.drop_last()).push(items.last()@));
    } else {
        assert(views(items) =~= seq![]);
    }
}

/// A text, a flag, a null, or an array of texts.
pub open spec fn is_flat(v: JsonView) -> bool {
    match v {
        JsonView::Null => true,
        JsonView::Bool(_) => true,
        JsonView::Text(_) => true,
        JsonView::Array(items) => forall|i: int|
            0 <= i < items.len() ==> (#[trigger] items[i]) is Text,
        _ => false,
    }
}

/// An object with flat fields, none of them under the `RAW_KEY`, is read back as it was
/// written.
pub proof fn flat_objects_read_back(fields: Map<Seq<char>, JsonView>)
    requires
        !fields.contains_key(RAW_KEY@),
        forall|k: Seq<char>| #[trigger] fields.contains_key(k) ==> is_flat(fields[k]),
    ensures
        reads_back(JsonView::Object(fields)),
{
    let depth = (MAX_DEPTH - 1) as nat;
    assert forall|k: Seq<char>| #[trigger] fields.contains_key(k) implies is_exact(
        fields[k],
        depth,
    ) by {
        if let JsonView::Array(items) = fields[k] {
            assert forall|i: int| 0 <= i < items.len() implies is_exact(
                #[trigger] items[i],
                (depth - 1) as nat,
            ) by {
                assert(items[i] is Text);
            }
        }
    }
}

/// The key of a field is a key of what the object says.
pub proof fn key_is_held(fields: Seq<(String, Json)>, i: int)
    requires
        0 <= i < fields.len(),
    ensures
        fields_view(fields).contains_key(fields[i].0@),
    decreases fields.len(),
{
    if i < fields.len() - 1 {
        key_is_held(fields.drop_last(), i);
    }
}

/// A key of what an object says is the key of a field.
pub proof fn held_key_is_field(fields: Seq<(String, Json)>, key: Seq<char>)
    requires
        fields_view(fields).contains_key(key),
    ensures
        exists|i: int| 0 <= i < fields.len() && (#[trigger] fields[i]).0@ == key,
    decreases fields.len(),
{
    if fields.len() > 0 {
        if fields.last().0@ == key {
            assert(fields[fields.len() - 1].0@ == key);
        } else {
            held_key_is_field(fields.drop_last(), key);
            let i = choose|i: int|
                0 <= i < fields.drop_last().len() && (#[trigger] fields.drop_last()[i]).0@ == key;
            assert(fields[i].0@ == key);
        }
    }
}

impl Json {
    /// The field `key` of an object.
    pub fn get(&self, key: &str) -> (r: Option<&Json>)
        ensures
            match r {
                Some(j) => field(self@, key@) == Some(j@),
                None => field(self@, key@) is None,
            },
    {
        match self {
            Json::Object(fields) => {
                let mut n: usize = fields.len();
                assert(fields@.take(n as int) =~= fields@);
                while n > 0
                    invariant
                        *self == Json::Object(*fields),
                        n <= fields@.len(),
                        forall|k: int| n <= k < fields@.len() ==> (#[trigger] fields@[k]).0@ != key@,
                        fields_view(fields@.take(n as int)).contains_key(key@) == fields_view(
                            fields@,
                        ).contains_key(key@),
                        fields_view(fields@).contains_key(key@) ==> fields_view(
                            fields@.take(n as int),
                        )[key@] == fields_view(fields@)[key@],
                    decreases n,
                {
                    assert(fields@.take(n as int).drop_last() =~= fields@.take(n - 1));
                    if text::same_str(fields[n - 1].0.as_str(), key) {
                        return Some(&fields[n - 1].1);
                    }
                    n -= 1;
                }
                None
            },
            _ => None,
        }
    }

    /// The text, where the value is one.
    pub fn as_str(&self) -> (r: Option<&str>)
        ensures
            match r {
                Some(s) => self@ == JsonView::Text(s@),
                None => !(self@ is Text),
            },
    {
        match self {
            Json::Text(s) => Some(s.as_str()),
            _ => None,
        }
    }

    /// The text in the field `key` of an object.
    pub fn get_str(&self, key: &str) -> (r: Option<&str>)
        ensures
            match r {
                Some(s) => text_field(self@, key@) == Some(s@),
                None => text_field(self@, key@) is None,
            },
    {
        match self.get(key) {
            Some(value) => value.as_str(),
            None => None,
        }
    }

    /// The value is an array.
    pub fn is_array(&self) -> (r: bool)
        ensures
            r == (self@ is Array),
    {
        match self {
            Json::Array(_) => true,
            _ => false,
        }
    }

    /// The value is a text, a number or a flag.
    pub fn is_scalar(&self) -> (r: bool)
        ensures
            r == is_scalar(self@),
    {
        match self {
            Json::Text(_) => true,
            Json::Number(_) => true,
            Json::Bool(_) => true,
            _ => false,
        }
    }

    /// The compact document that says this value.
    pub fn to_text(&self) -> (r: String)
        ensures
            r@ == compact(self@),
            reads_back(self@) ==> document(r@) == says(self@),
    {
        write_value(&to_value(self))
    }

    /// The indented document that says this value, or the message with which it is refused.
    pub fn to_pretty_text(&self) -> (r: Result<String, String>)
        ensures
            text::text_result(r) == pretty(self@),
            is_read_back(r, self@),
    {
        write_pretty(&to_value(self))
    }
}

/// Adds a field to an object; it replaces one of the same key.
pub fn add_field(fields: &mut Vec<(String, Json)>, key: &str, value: Json)
    ensures
        fields_view(final(fields)@) == fields_view(old(fields)@).insert(key@, value@),
{
    let ghost before = fields@;
    fields.push((key.to_owned(), value));
    assert(fields@.drop_last() =~= before);
}

/// Adds a text to an object.
pub fn add_text(fields: &mut Vec<(String, Json)>, key: &str, text: &str)
    ensures
        fields_view(final(fields)@) == fields_view(old(fields)@).insert(
            key@,
            JsonView::Text(text@),
        ),
{
    add_field(fields, key, Json::Text(text.to_owned()));
}

/// What the outcome of reading a document says.
pub open spec fn said(r: Result<Json, String>) -> Result<JsonView, Seq<char>> {
    match r {
        Ok(j) => Ok(j@),
        Err(message) => Err(message@),
    }
}

/// Reads a JSON document; an error is given by its text.
pub fn parse(text: &str) -> (r: Result<Json, String>)
    ensures
        said(r) == document(text@),
{
    match read_value(text) {
        Ok(value) => Ok(from_value(value)),
        Err(message) => Err(message),
    }
}

// ---------------------------------------------------------------------------
// What the values are for
// ---------------------------------------------------------------------------

/// A field of an object is what the object holds under its key, and the text in it is that
/// field where it is a text. What is no object has no fields.
pub proof fn fields_are_held_by_key(
    fields: Map<Seq<char>, JsonView>,
    key: Seq<char>,
    other: JsonView,
    s: Seq<char>,
)
    ensures
        fields.contains_key(key) ==> field(JsonView::Object(fields), key) == Some(fields[key]),
        !fields.contains_key(key) ==> field(JsonView::Object(fields), key) is None,
        fields.contains_key(key) && fields[key] == JsonView::Text(s) ==> text_field(
            JsonView::Object(fields),
            key,
        ) == Some(s),
        text_field(JsonView::Object(fields), key) == Some(s) ==> fields.contains_key(key)
            && fields[key] == JsonView::Text(s),
        !(other is Object) ==> field(other, key) is None && text_field(other, key) is None,
{
}

/// Texts, numbers and flags are scalars, and nothing else is.
pub proof fn texts_numbers_and_flags_are_scalars(v: JsonView)
    ensures
        is_scalar(v) <==> match v {
            JsonView::Text(_) => true,
            JsonView::Number(_) => true,
            JsonView::Bool(_) => true,
            JsonView::Null => false,
            JsonView::Array(_) => false,
            JsonView::Object(_) => false,
        },
{
}

/// A value says what it is made of: texts, flags and numbers by themselves, an array item by
/// item, and an object by key, where the last field of a key counts.
pub proof fn values_say_what_they_hold(
    b: bool,
    s: String,
    n: serde_json::Number,
    items: Vec<Json>,
    fields: Vec<(String, Json)>,
    i: int,
)
    ensures
        Json::Null@ == JsonView::Null,
        Json::Bool(b)@ == JsonView::Bool(b),
        Json::Text(s)@ == JsonView::Text(s@),
        Json::Number(n)@ == JsonView::Number(number_text(n)),
        Json::Array(items)@ matches JsonView::Array(all) && all.len() == items@.len() && (0 <= i
            < items@.len() ==> all[i] == items@[i]@),
        Json::Object(fields)@ matches JsonView::Object(all) && (0 <= i < fields@.len() && (forall|
            k: int,
        |
            i < k < fields@.len() ==> (#[trigger] fields@[k]).0@ != fields@[i].0@)
            ==> all.contains_key(fields@[i].0@) && all[fields@[i].0@] == fields@[i].1@),
        views(items@).len() == items@.len(),
        0 <= i < items@.len() ==> views(items@)[i] == items@[i]@,
{
    items_view_is_views(items@);
    if 0 <= i < fields@.len() && (forall|k: int|
        i < k < fields@.len() ==> (#[trigger] fields@[k]).0@ != fields@[i].0@) {
        last_field_counts(fields@, i);
    }
}

proof fn last_field_counts(fields: Seq<(String, Json)>, i: int)
    requires
        0 <= i < fields.len(),
        forall|k: int| i < k < fields.len() ==> (#[trigger] fields[k]).0@ != fields[i].0@,
    ensures
        fields_view(fields).contains_key(fields[i].0@),
        fields_view(fields)[fields[i].0@] == fields[i].1@,
    decreases fields.len(),
{
    if i < fields.len() - 1 {
        let front = fields.drop_last();
        assert forall|k: int| i < k < front.len() implies (#[trigger] front[k]).0@
            != front[i].0@ by {
            assert(front[k] == fields[k]);
        }
        last_field_counts(front, i);
        assert(fields[fields.len() - 1].0@ != fields[i].0@);
    }
}

/// Outcomes say what they hold, and a new object has no field.
pub proof fn outcomes_say_what_they_hold(j: Json, message: String, v: JsonView, key: Seq<char>)
    ensures
        said(Ok(j)) == Ok::<JsonView, Seq<char>>(j@),
        said(Err(message)) == Err::<JsonView, Seq<char>>(message@),
        says(v) == Ok::<JsonView, Seq<char>>(v),
        !no_fields().contains_key(key),
{
}

} // verus!
