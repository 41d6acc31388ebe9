//! The templates of the service and the print settings of its stations.
//!
//! One template is the default template, which cannot be deleted. Ids are handed out
//! in ascending order and never again.
use vstd::prelude::*;

use crate::decimal;
use crate::decimal::{parse_i64_str, signed_text};
use crate::design;
use crate::design::check_payload;
use crate::err;
use crate::err::{CustomError, ErrorView, other_error, other_error_with};
use crate::json;
use crate::json::{Json, JsonView, parse};
use crate::text_map::TextMap;
use crate::text;
use crate::text::{same_str, trimmed_str};

verus! {

/// The name of the template that an empty store is seeded with.
pub const DEFAULT_TEMPLATE_NAME: &'static str = "默认标签模板";

/// The design of a new template: an empty panel of 150 mm by 70 mm.
pub const BLANK_DESIGN_JSON: &'static str = r#"{"panels":[{"index":0,"width":150,"height":70,"paperHeader":0,"paperFooter":198.4,"paperNumberDisabled":true,"printElements":[]}]}"#;

/// The page of a new template.
pub const BLANK_RENDER_HTML: &'static str = "<!DOCTYPE html>\n<html lang=\"zh-CN\">\n<head>\n<meta charset=\"UTF-8\">\n<style>html, body { margin: 0; padding: 0; }\n#app { position: relative; width: 150mm; height: 70mm; overflow: hidden; }</style>\n</head>\n<body>\n<div id=\"app\"></div>\n</body>\n</html>";

// ---------------------------------------------------------------------------
// Rows
// ---------------------------------------------------------------------------

/// A template as it is stored.
#[derive(Debug)]
pub struct TemplateRow {
    pub id: i64,
    pub name: String,
    /// The design, a JSON document.
    pub design_json: String,
    pub render_html: String,
    pub is_default: bool,
    /// In seconds.
    pub updated_at: i64,
}

pub struct RowView {
    pub id: int,
    pub name: Seq<char>,
    pub design_json: Seq<char>,
    pub render_html: Seq<char>,
    pub is_default: bool,
    pub updated_at: int,
}

impl View for TemplateRow {
    type V = RowView;

    open spec fn view(&self) -> RowView {
        RowView {
            id: self.id as int,
            name: self.name@,
            design_json: self.design_json@,
            render_html: self.render_html@,
            is_default: self.is_default,
            updated_at: self.updated_at as int,
        }
    }
}

/// A length in centimetres, by the bits of its floating point number.
#[derive(Debug, PartialEq, Eq, Structural, Clone, Copy)]
pub struct PaperLength {
    pub bits: u64,
}

/// The print settings of a station. What is absent is not overridden.
#[derive(Debug)]
pub struct AgentSettings {
    pub printer: Option<String>,
    pub paper_width: Option<PaperLength>,
    pub paper_height: Option<PaperLength>,
}

pub struct SettingsView {
    pub printer: Option<Seq<char>>,
    pub paper_width: Option<PaperLength>,
    pub paper_height: Option<PaperLength>,
}

impl View for AgentSettings {
    type V = SettingsView;

    open spec fn view(&self) -> SettingsView {
        SettingsView {
            printer: text::text_option(self.printer),
            paper_width: self.paper_width,
            paper_height: self.paper_height,
        }
    }
}

/// Settings that override nothing.
pub open spec fn no_override() -> SettingsView {
    SettingsView { printer: None, paper_width: None, paper_height: None }
}

impl Default for AgentSettings {
    fn default() -> (r: Self)
        ensures
            r@ == no_override(),
    {
        AgentSettings { printer: None, paper_width: None, paper_height: None }
    }
}

impl AgentSettings {
    /// The same settings once more.
    pub fn copied(&self) -> (r: AgentSettings)
        ensures
            r@ == self@,
    {
        AgentSettings {
            printer: match &self.printer {
                Some(printer) => Some(printer.clone()),
                None => None,
            },
            paper_width: self.paper_width,
            paper_height: self.paper_height,
        }
    }
}

// ---------------------------------------------------------------------------
// The store
// ---------------------------------------------------------------------------

/// The templates, in ascending order of their ids, and the settings of the stations.
pub struct TemplateStore {
    rows: Vec<TemplateRow>,
    /// The largest id that was ever handed out.
    last_id: i64,
    settings: TextMap<AgentSettings>,
}

pub struct StoreView {
    pub rows: Seq<RowView>,
    pub last_id: int,
    pub settings: Map<Seq<char>, SettingsView>,
}

/// What stored templates say.
pub open spec fn rows_view(rows: Seq<TemplateRow>) -> Seq<RowView> {
    rows.map_values(|r: TemplateRow| r@)
}

impl View for TemplateStore {
    type V = StoreView;

    open spec fn view(&self) -> StoreView {
        StoreView {
            rows: rows_view(self.row_list()),
            last_id: self.largest_id(),
            settings: self.stations()@,
        }
    }
}

impl StoreView {
    /// The ids ascend, are positive and were handed out.
    pub open spec fn is_valid(self) -> bool {
        &&& 0 <= self.last_id <= i64::MAX
        &&& forall|i: int| 0 <= i < self.rows.len() ==> 0 < (#[trigger] self.rows[i]).id <= self.last_id
        &&& forall|i: int, j: int|
            0 <= i < j < self.rows.len() ==> (#[trigger] self.rows[i]).id < (#[trigger] self.rows[j]).id
    }
}

impl TemplateStore {
    /// The templates, one after the other.
    pub closed spec fn row_list(self) -> Seq<TemplateRow> {
        self.rows@
    }

    /// The largest id that was ever handed out.
    pub closed spec fn largest_id(self) -> int {
        self.last_id as int
    }

    /// The settings by station.
    pub closed spec fn stations(self) -> TextMap<AgentSettings> {
        self.settings
    }

    /// The ids are in order and each station has settings once.
    pub open spec fn is_valid(self) -> bool {
        self@.is_valid() && self.stations().is_valid()
    }

    /// A store without templates and settings.
    pub fn new() -> (r: TemplateStore)
        ensures
            r.is_valid(),
            r@.rows == Seq::<RowView>::empty(),
            r@.last_id == 0,
            r@.settings == Map::<Seq<char>, SettingsView>::empty(),
    {
        TemplateStore { rows: Vec::new(), last_id: 0, settings: TextMap::new() }
    }

    /// A store with the given templates and without settings, where `last_id` was the
    /// largest id that was ever handed out; nothing where the ids are not in order.
    pub fn restore(rows: Vec<TemplateRow>, last_id: i64) -> (r: Option<TemplateStore>)
        ensures
            match r {
                Some(store) => store.is_valid() && store@ == restored(rows@, last_id),
                None => !restored(rows@, last_id).is_valid(),
            },
    {
        let ghost wanted = restored(rows@, last_id);
        if last_id < 0 {
            return None;
        }
        let mut above: i64 = 0;
        let mut i: usize = 0;
        while i < rows.len()
            invariant
                i <= rows@.len(),
                wanted == restored(rows@, last_id),
                0 <= above <= last_id,
                above == (if i > 0 {
                    rows@[i - 1].id
                } else {
                    0
                }),
                forall|k: int|
                    0 <= k < i ==> 0 < (#[trigger] wanted.rows[k]).id <= above,
                forall|k: int, l: int|
                    0 <= k < l < i ==> (#[trigger] wanted.rows[k]).id < (#[trigger] wanted.rows[l]).id,
            decreases rows@.len() - i,
        {
            let id = rows[i].id;
            assert(wanted.rows[i as int].id == id);
            if id <= above || id > last_id {
                proof {
                    if i > 0 {
                        assert(wanted.rows[i - 1].id == above);
                    }
                }
                return None;
            }
            above = id;
            i += 1;
        }
        let store = TemplateStore { rows, last_id, settings: TextMap::new() };
        Some(store)
    }

    /// The settings by station.
    pub fn settings(&self) -> (r: &TextMap<AgentSettings>)
        ensures
            *r == self.stations(),
    {
        &self.settings
    }

    /// The templates, in ascending order of their ids.
    pub fn rows(&self) -> (r: &Vec<TemplateRow>)
        ensures
            rows_view(r@) == self@.rows,
    {
        &self.rows
    }
}

/// What a store with the given templates and without settings holds.
pub open spec fn restored(rows: Seq<TemplateRow>, last_id: i64) -> StoreView {
    StoreView { rows: rows_view(rows), last_id: last_id as int, settings: Map::empty() }
}

/// The first row that is wanted.
pub open spec fn first_index(rows: Seq<RowView>, wanted: spec_fn(RowView) -> bool) -> Option<int>
    decreases rows.len(),
{
    if rows.len() == 0 {
        None
    } else {
        match first_index(rows.drop_last(), wanted) {
            Some(i) => Some(i),
            None => if wanted(rows.last()) {
                Some(rows.len() - 1)
            } else {
                None
            },
        }
    }
}

/// The rows with the given id.
pub open spec fn with_id(id: int) -> spec_fn(RowView) -> bool {
    |r: RowView| r.id == id
}

/// The rows that are a default template.
pub open spec fn defaults() -> spec_fn(RowView) -> bool {
    |r: RowView| r.is_default
}

/// The row with the given id.
pub open spec fn index_of(rows: Seq<RowView>, id: int) -> Option<int> {
    first_index(rows, with_id(id))
}

/// The row of the default template.
pub open spec fn default_index(rows: Seq<RowView>) -> Option<int> {
    first_index(rows, defaults())
}

/// The first row that is wanted is wanted, and no row before it is.
pub proof fn first_index_is_first(rows: Seq<RowView>, wanted: spec_fn(RowView) -> bool)
    ensures
        match first_index(rows, wanted) {
            Some(i) => 0 <= i < rows.len() && wanted(rows[i]) && forall|j: int|
                0 <= j < i ==> !wanted(#[trigger] rows[j]),
            None => forall|j: int| 0 <= j < rows.len() ==> !wanted(#[trigger] rows[j]),
        },
    decreases rows.len(),
{
    if rows.len() > 0 {
        let front = rows.drop_last();
        first_index_is_first(front, wanted);
        assert forall|j: int| 0 <= j < front.len() implies front[j] == rows[j] by {}
        match first_index(front, wanted) {
            Some(i) => {
                assert(wanted(rows[i]));
                assert forall|j: int| 0 <= j < i implies !wanted(#[trigger] rows[j]) by {
                    assert(!wanted(front[j]));
                }
            },
            None => {
                assert forall|j: int| 0 <= j < front.len() implies !wanted(#[trigger] rows[j]) by {
                    assert(!wanted(front[j]));
                }
            },
        }
    }
}

fn find_id(store: &TemplateStore, id: i64) -> (r: Option<usize>)
    ensures
        match r {
            Some(i) => index_of(store@.rows, id as int) == Some(i as int) && i < store.rows@.len(),
            None => index_of(store@.rows, id as int) is None,
        },
{
    let ghost rows = store@.rows;
    let mut found: Option<usize> = None;
    let mut i: usize = 0;
    assert(rows.take(0) =~= seq![]);
    while i < store.rows.len()
        invariant
            rows == store@.rows,
            i <= store.rows@.len(),
            match found {
                Some(k) => first_index(rows.take(i as int), with_id(id as int)) == Some(k as int) && k
                    < i,
                None => first_index(rows.take(i as int), with_id(id as int)) is None,
            },
        decreases store.rows@.len() - i,
    {
        assert(rows.take(i + 1).drop_last() =~= rows.take(i as int));
        if found.is_none() && store.rows[i].id == id {
            found = Some(i);
        }
        i += 1;
    }
    assert(rows.take(i as int) =~= rows);
    found
}

fn find_default(store: &TemplateStore) -> (r: Option<usize>)
    ensures
        match r {
            Some(i) => default_index(store@.rows) == Some(i as int) && i < store.rows@.len(),
            None => default_index(store@.rows) is None,
        },
{
    let ghost rows = store@.rows;
    let mut found: Option<usize> = None;
    let mut i: usize = 0;
    assert(rows.take(0) =~= seq![]);
    while i < store.rows.len()
        invariant
            rows == store@.rows,
            i <= store.rows@.len(),
            match found {
                Some(k) => first_index(rows.take(i as int), defaults()) == Some(k as int) && k < i,
                None => first_index(rows.take(i as int), defaults()) is None,
            },
        decreases store.rows@.len() - i,
    {
        assert(rows.take(i + 1).drop_last() =~= rows.take(i as int));
        if found.is_none() && store.rows[i].is_default {
            found = Some(i);
        }
        i += 1;
    }
    assert(rows.take(i as int) =~= rows);
    found
}

// ---------------------------------------------------------------------------
// Reading
// ---------------------------------------------------------------------------

/// A template in a list.
#[derive(Debug)]
pub struct TemplateSummary {
    pub id: i64,
    pub name: String,
    pub is_default: bool,
    pub updated_at: i64,
}

pub struct SummaryView {
    pub id: int,
    pub name: Seq<char>,
    pub is_default: bool,
    pub updated_at: int,
}

impl View for TemplateSummary {
    type V = SummaryView;

    open spec fn view(&self) -> SummaryView {
        SummaryView {
            id: self.id as int,
            name: self.name@,
            is_default: self.is_default,
            updated_at: self.updated_at as int,
        }
    }
}

/// A template with its design.
#[derive(Debug)]
pub struct TemplateRecord {
    pub id: i64,
    pub name: String,
    pub is_default: bool,
    pub updated_at: i64,
    pub design_json: Json,
    pub render_html: String,
}

pub struct RecordView {
    pub id: int,
    pub name: Seq<char>,
    pub is_default: bool,
    pub updated_at: int,
    pub design_json: JsonView,
    pub render_html: Seq<char>,
}

impl View for TemplateRecord {
    type V = RecordView;

    open spec fn view(&self) -> RecordView {
        RecordView {
            id: self.id as int,
            name: self.name@,
            is_default: self.is_default,
            updated_at: self.updated_at as int,
            design_json: self.design_json@,
            render_html: self.render_html@,
        }
    }
}

/// A template that does not exist.
pub open spec fn no_template(id: int) -> ErrorView {
    ErrorView::OtherLibraryError("模板不存在: "@ + decimal::decimal(id))
}

/// The database's words for a query that finds nothing.
pub open spec fn no_rows() -> ErrorView {
    ErrorView::DbError("Query returned no rows"@)
}

/// A stored template with what its design says; an error where the design is no JSON
/// document.
pub open spec fn record_with(row: RowView, design: Result<JsonView, Seq<char>>) -> Result<
    RecordView,
    ErrorView,
> {
    match design {
        Ok(design_json) => Ok(
            RecordView {
                id: row.id,
                name: row.name,
                is_default: row.is_default,
                updated_at: row.updated_at,
                design_json,
                render_html: row.render_html,
            },
        ),
        Err(message) => Err(ErrorView::JsonError(message)),
    }
}

/// The template with the given id.
pub open spec fn record(v: StoreView, id: int) -> Result<RecordView, ErrorView> {
    match index_of(v.rows, id) {
        None => Err(no_template(id)),
        Some(i) => record_with(v.rows[i], json::document(v.rows[i].design_json)),
    }
}

/// The template with the given id, or the default template.
pub open spec fn chosen(v: StoreView, id: Option<i64>) -> Result<RecordView, ErrorView> {
    match id {
        Some(id) => record(v, id as int),
        None => match default_index(v.rows) {
            Some(i) => record(v, v.rows[i].id),
            None => Err(no_rows()),
        },
    }
}

/// What the outcome of reading a template holds.
pub open spec fn record_result(r: Result<TemplateRecord, CustomError>) -> Result<
    RecordView,
    ErrorView,
> {
    match r {
        Ok(record) => Ok(record@),
        Err(e) => Err(e@),
    }
}

/// A stored template with what its design says.
pub fn record_of(row: &TemplateRow, design: Result<Json, String>) -> (r: Result<
    TemplateRecord,
    CustomError,
>)
    ensures
        record_result(r) == record_with(row@, json::said(design)),
{
    match design {
        Ok(design_json) => Ok(
            TemplateRecord {
                id: row.id,
                name: row.name.clone(),
                is_default: row.is_default,
                updated_at: row.updated_at,
                design_json,
                render_html: row.render_html.clone(),
            },
        ),
        Err(message) => Err(CustomError::JsonError(message)),
    }
}

/// The template with the given id.
pub fn record_by_id(store: &TemplateStore, id: i64) -> (r: Result<TemplateRecord, CustomError>)
    ensures
        record_result(r) == record(store@, id as int),
{
    match find_id(store, id) {
        None => Err(other_error_with("模板不存在: ", signed_text(id as i64).as_str())),
        Some(i) => record_of(&store.rows[i], parse(store.rows[i].design_json.as_str())),
    }
}

/// The template with the given id; the default template where there is none.
pub fn get(store: &TemplateStore, id: Option<i64>) -> (r: Result<TemplateRecord, CustomError>)
    ensures
        record_result(r) == chosen(store@, id),
{
    match id {
        Some(id) => record_by_id(store, id),
        None => match find_default(store) {
            Some(i) => record_by_id(store, store.rows[i].id),
            None => Err(CustomError::DbError("Query returned no rows".to_owned())),
        },
    }
}

/// A stored template as it stands in a list.
pub open spec fn summary(row: RowView) -> SummaryView {
    SummaryView {
        id: row.id,
        name: row.name,
        is_default: row.is_default,
        updated_at: row.updated_at,
    }
}

/// The stored templates as they stand in a list.
pub open spec fn summaries(rows: Seq<RowView>) -> Seq<SummaryView> {
    rows.map_values(|r: RowView| summary(r))
}

/// `a` stands before `b` in a list: the default template first, then what was updated
/// last, then what was made first.
pub open spec fn stands_before(a: SummaryView, b: SummaryView) -> bool {
    if a.is_default != b.is_default {
        a.is_default
    } else if a.updated_at != b.updated_at {
        a.updated_at > b.updated_at
    } else {
        a.id < b.id
    }
}

/// What the entries of a list say.
pub open spec fn entries(list: Seq<TemplateSummary>) -> Seq<SummaryView> {
    list.map_values(|s: TemplateSummary| s@)
}

/// Every entry stands before the ones that follow it.
pub open spec fn in_order(list: Seq<SummaryView>) -> bool {
    forall|i: int, j: int|
        0 <= i < j < list.len() ==> stands_before(#[trigger] list[i], #[trigger] list[j])
}

/// `entry` is one of the first `n` entries of a list.
spec fn is_among(list: Seq<SummaryView>, n: int, entry: SummaryView) -> bool {
    exists|m: int| 0 <= m < n && entry == #[trigger] list[m]
}

fn goes_before(a: &TemplateSummary, b: &TemplateSummary) -> (r: bool)
    ensures
        r == stands_before(a@, b@),
{
    if a.is_default != b.is_default {
        a.is_default
    } else if a.updated_at != b.updated_at {
        a.updated_at > b.updated_at
    } else {
        a.id < b.id
    }
}

/// The templates: the default template first, then by the time of the last update.
pub fn list(store: &TemplateStore) -> (r: Vec<TemplateSummary>)
    requires
        store.is_valid(),
    ensures
        entries(r@).to_multiset() == summaries(store@.rows).to_multiset(),
        in_order(entries(r@)),
        r@.len() == store@.rows.len(),
        forall|k: int| 0 <= k < r@.len() ==> tells_of_one((#[trigger] r@[k])@, store@.rows),
        forall|i: int|
            0 <= i < store@.rows.len() ==> is_told(entries(r@), #[trigger] store@.rows[i]),
{
    let mut r: Vec<TemplateSummary> = Vec::new();
    let ghost all = summaries(store@.rows);
    let mut i: usize = 0;
    proof {
        assert(entries(r@) =~= all.take(0));
    }
    while i < store.rows.len()
        invariant
            store.is_valid(),
            all == summaries(store@.rows),
            i <= store.rows@.len(),
            entries(r@).to_multiset() == all.take(i as int).to_multiset(),
            forall|k: int|
                0 <= k < r@.len() ==> is_among(all, i as int, #[trigger] entries(r@)[k]),
            in_order(entries(r@)),
        decreases store.rows@.len() - i,
    {
        let row = &store.rows[i];
        let entry = TemplateSummary {
            id: row.id,
            name: row.name.clone(),
            is_default: row.is_default,
            updated_at: row.updated_at,
        };
        let ghost before = r@;
        assert(all[i as int] == summary(store@.rows[i as int]));
        assert(entry@ == all[i as int]);
        let mut k: usize = 0;
        while k < r.len() && goes_before(&r[k], &entry)
            invariant
                r@ == before,
                k <= r@.len(),
                forall|m: int| 0 <= m < k ==> stands_before(#[trigger] entries(r@)[m], entry@),
            decreases r@.len() - k,
        {
            assert(entries(r@)[k as int] == r@[k as int]@);
            k += 1;
        }
        proof {
            if k < before.len() {
                assert(!stands_before(entries(before)[k as int], entry@));
                assert(is_among(all, i as int, entries(before)[k as int]));
                let m = choose|m: int|
                    0 <= m < i && entries(before)[k as int] == #[trigger] all[m];
                assert(all[m].id == store@.rows[m].id);
                assert(all[i as int].id == store@.rows[i as int].id);
                assert(store@.rows[m].id < store@.rows[i as int].id);
                assert(stands_before(entry@, entries(before)[k as int]));
            }
        }
        r.insert(k, entry);
        proof {
            let old_list = entries(before);
            let new_list = entries(r@);
            assert(new_list =~= old_list.insert(k as int, entry@));
            broadcast use vstd::seq_lib::group_to_multiset_ensures;

            assert(all.take(i + 1) =~= all.take(i as int).push(entry@));
            assert(new_list.to_multiset() =~= all.take(i + 1).to_multiset());
            assert forall|a: int, b: int| 0 <= a < b < new_list.len() implies stands_before(
                #[trigger] new_list[a],
                #[trigger] new_list[b],
            ) by {
                insertion_keeps_order(old_list, k as int, entry@, a, b);
            }
            assert forall|a: int| 0 <= a < r@.len() implies is_among(
                all,
                i + 1,
                #[trigger] entries(r@)[a],
            ) by {
                if a == k {
                    assert(entries(r@)[a] == all[i as int]);
                } else {
                    let a0 = if a < k { a } else { a - 1 };
                    assert(new_list[a] == old_list[a0]);
                    assert(is_among(all, i as int, old_list[a0]));
                    let m = choose|m: int| 0 <= m < i && old_list[a0] == #[trigger] all[m];
                    assert(entries(r@)[a] == all[m]);
                }
            }
        }
        i += 1;
    }
    assert(all.take(i as int) =~= all);
    proof {
        let told = entries(r@);
        list_tells_of_the_templates(store@, told);
        assert forall|k: int| 0 <= k < r@.len() implies tells_of_one(
            (#[trigger] r@[k])@,
            store@.rows,
        ) by {
            assert(told[k] == r@[k]@);
        }
    }
    r
}

proof fn insertion_keeps_order(
    list: Seq<SummaryView>,
    k: int,
    entry: SummaryView,
    a: int,
    b: int,
)
    requires
        in_order(list),
        0 <= k <= list.len(),
        forall|m: int| 0 <= m < k ==> stands_before(#[trigger] list[m], entry),
        k < list.len() ==> stands_before(entry, list[k]),
        0 <= a < b <= list.len(),
    ensures
        stands_before(list.insert(k, entry)[a], list.insert(k, entry)[b]),
{
    let new_list = list.insert(k, entry);
    if b < k {
        assert(new_list[a] == list[a] && new_list[b] == list[b]);
    } else if b == k {
        assert(new_list[a] == list[a] && new_list[b] == entry);
    } else if a < k {
        assert(new_list[a] == list[a] && new_list[b] == list[b - 1]);
    } else if a == k {
        assert(new_list[a] == entry && new_list[b] == list[b - 1]);
        if k < b - 1 {
            assert(stands_before(list[k], list[b - 1]));
        }
    } else {
        assert(new_list[a] == list[a - 1] && new_list[b] == list[b - 1]);
    }
}

/// The row of that name that was updated last; of several, the one made first.
pub open spec fn newest_index(rows: Seq<RowView>, name: Seq<char>) -> Option<int>
    decreases rows.len(),
{
    if rows.len() == 0 {
        None
    } else if rows.last().name != name {
        newest_index(rows.drop_last(), name)
    } else {
        match newest_index(rows.drop_last(), name) {
            Some(i) => if rows[i].updated_at < rows.last().updated_at {
                Some(rows.len() - 1)
            } else {
                Some(i)
            },
            None => Some(rows.len() - 1),
        }
    }
}

/// The row that a selector names: none for the default template, a number for an id,
/// another text for a name.
pub open spec fn selected_index(rows: Seq<RowView>, selector: Option<Seq<char>>) -> Option<int> {
    match selector {
        None => default_index(rows),
        Some(s) => match decimal::parsed(s, i64::MIN as int, i64::MAX as int) {
            Some(id) => index_of(rows, id),
            None => newest_index(rows, s),
        },
    }
}

/// The page that a selector names.
pub open spec fn selected_html(v: StoreView, selector: Option<Seq<char>>) -> Result<
    Seq<char>,
    ErrorView,
> {
    match selected_index(v.rows, selector) {
        Some(i) => Ok(v.rows[i].render_html),
        None => Err(
            ErrorView::OtherLibraryError(
                "模板不存在: "@ + match selector {
                    Some(s) => s,
                    None => "<default>"@,
                },
            ),
        ),
    }
}

/// The row of a name that was updated last has that name, and no row of that name is
/// newer, nor as new and made before it.
pub proof fn newest_index_is_newest(rows: Seq<RowView>, name: Seq<char>)
    ensures
        match newest_index(rows, name) {
            Some(i) => 0 <= i < rows.len() && rows[i].name == name && forall|j: int|
                0 <= j < rows.len() && (#[trigger] rows[j]).name == name ==> rows[j].updated_at
                    < rows[i].updated_at || (rows[j].updated_at == rows[i].updated_at && i <= j),
            None => forall|j: int| 0 <= j < rows.len() ==> (#[trigger] rows[j]).name != name,
        },
    decreases rows.len(),
{
    if rows.len() > 0 {
        let front = rows.drop_last();
        newest_index_is_newest(front, name);
        assert forall|j: int| 0 <= j < front.len() implies #[trigger] rows[j] == front[j] by {}
    }
}

fn find_newest(store: &TemplateStore, name: &str) -> (r: Option<usize>)
    ensures
        match r {
            Some(i) => newest_index(store@.rows, name@) == Some(i as int) && i < store.rows@.len(),
            None => newest_index(store@.rows, name@) is None,
        },
{
    let ghost rows = store@.rows;
    let mut found: Option<usize> = None;
    let mut i: usize = 0;
    assert(rows.take(0) =~= seq![]);
    while i < store.rows.len()
        invariant
            rows == store@.rows,
            i <= store.rows@.len(),
            match found {
                Some(k) => newest_index(rows.take(i as int), name@) == Some(k as int) && k < i,
                None => newest_index(rows.take(i as int), name@) is None,
            },
        decreases store.rows@.len() - i,
    {
        assert(rows.take(i + 1).drop_last() =~= rows.take(i as int));
        assert(rows[i as int] == store.rows@[i as int]@);
        if same_str(store.rows[i].name.as_str(), name) {
            match found {
                Some(k) => {
                    assert(rows[k as int] == store.rows@[k as int]@);
                    if store.rows[k].updated_at < store.rows[i].updated_at {
                        found = Some(i);
                    }
                },
                None => {
                    found = Some(i);
                },
            }
        }
        i += 1;
    }
    assert(rows.take(i as int) =~= rows);
    found
}

/// The page that a selector names.
pub fn render_html_for(store: &TemplateStore, selector: Option<&str>) -> (r: Result<
    String,
    CustomError,
>)
    ensures
        err::told(r) == selected_html(
            store@,
            match selector {
                Some(s) => Some(s@),
                None => None,
            },
        ),
{
    let found = match selector {
        None => find_default(store),
        Some(s) => match parse_i64_str(s) {
            Some(id) => find_id(store, id),
            None => find_newest(store, s),
        },
    };
    match found {
        Some(i) => {
            assert(store@.rows[i as int] == store.rows@[i as int]@);
            Ok(store.rows[i].render_html.clone())
        },
        None => Err(
            other_error_with(
                "模板不存在: ",
                match selector {
                    Some(s) => s,
                    None => "<default>",
                },
            ),
        ),
    }
}

// ---------------------------------------------------------------------------
// Changing
// ---------------------------------------------------------------------------

/// A store that has handed out every id.
pub open spec fn no_id_left() -> ErrorView {
    ErrorView::DbError("database or disk is full"@)
}

/// A template without a name.
pub open spec fn name_missing() -> ErrorView {
    ErrorView::OtherLibraryError("模板名称不能为空"@)
}

/// The store with a template more, and its id.
pub open spec fn with_template(
    v: StoreView,
    name: Seq<char>,
    design_json: Seq<char>,
    render_html: Seq<char>,
    is_default: bool,
    now: int,
) -> (StoreView, Result<int, ErrorView>) {
    if v.last_id == i64::MAX {
        (v, Err(no_id_left()))
    } else {
        let row = RowView {
            id: v.last_id + 1,
            name,
            design_json,
            render_html,
            is_default,
            updated_at: now,
        };
        (StoreView { rows: v.rows.push(row), last_id: v.last_id + 1, ..v }, Ok(v.last_id + 1))
    }
}

/// A blank name: nothing but white space.
pub open spec fn is_blank(name: Seq<char>) -> bool {
    text::trim(name).len() == 0
}

/// A new, empty template.
pub open spec fn created(v: StoreView, name: Seq<char>, now: int) -> (
    StoreView,
    Result<int, ErrorView>,
) {
    if is_blank(name) {
        (v, Err(name_missing()))
    } else {
        with_template(v, name, BLANK_DESIGN_JSON@, BLANK_RENDER_HTML@, false, now)
    }
}

/// A copy of a template.
pub open spec fn copied(v: StoreView, id: int, now: int) -> (StoreView, Result<int, ErrorView>) {
    match record(v, id) {
        Err(e) => (v, Err(e)),
        Ok(r) => with_template(
            v,
            r.name + " 副本"@,
            json::compact(r.design_json),
            r.render_html,
            false,
            now,
        ),
    }
}

/// The default template of an empty store.
pub open spec fn seeded(
    v: StoreView,
    name: Seq<char>,
    design_json: Seq<char>,
    render_html: Seq<char>,
    now: int,
) -> (StoreView, Result<(), ErrorView>) {
    match json::document(design_json) {
        Err(message) => (
            v,
            Err(ErrorView::OtherLibraryError("种子模板 JSON 非法: "@ + message)),
        ),
        Ok(_) => {
            let (after, r) = with_template(v, name, design_json, render_html, true, now);
            match r {
                Ok(_) => (after, Ok(())),
                Err(e) => (after, Err(e)),
            }
        },
    }
}

/// What is wrong with a change of a template.
pub open spec fn update_error(
    name: Seq<char>,
    design: Option<JsonView>,
    html: Option<Seq<char>>,
) -> Option<ErrorView> {
    if is_blank(name) {
        Some(name_missing())
    } else {
        design::payload_error(design, html)
    }
}

/// A template with its name, design and page changed where a new one is given.
pub open spec fn updated(
    v: StoreView,
    id: int,
    name: Option<Seq<char>>,
    design: Option<JsonView>,
    html: Option<Seq<char>>,
    now: int,
) -> (StoreView, Result<(), ErrorView>) {
    match record(v, id) {
        Err(e) => (v, Err(e)),
        Ok(r) => {
            let new_name = match name {
                Some(n) => n,
                None => r.name,
            };
            match update_error(new_name, design, html) {
                Some(e) => (v, Err(e)),
                None => {
                    let i = index_of(v.rows, id)->0;
                    let row = RowView {
                        name: new_name,
                        design_json: json::compact(
                            match design {
                                Some(d) => d,
                                None => r.design_json,
                            },
                        ),
                        render_html: match html {
                            Some(h) => h,
                            None => r.render_html,
                        },
                        updated_at: now,
                        ..v.rows[i]
                    };
                    (StoreView { rows: v.rows.update(i, row), ..v }, Ok(()))
                },
            }
        },
    }
}

/// A template once it was changed: what is given is new, all else stays.
pub open spec fn saved(
    before: RecordView,
    name: Option<Seq<char>>,
    design: Option<JsonView>,
    html: Option<Seq<char>>,
    now: int,
) -> RecordView {
    RecordView {
        name: match name {
            Some(n) => n,
            None => before.name,
        },
        design_json: match design {
            Some(d) => d,
            None => before.design_json,
        },
        render_html: match html {
            Some(h) => h,
            None => before.render_html,
        },
        updated_at: now,
        ..before
    }
}

/// A copy of a template under the id `id`.
pub open spec fn duplicate(source: RecordView, id: int, now: int) -> RecordView {
    RecordView {
        id,
        name: source.name + " 副本"@,
        is_default: false,
        updated_at: now,
        ..source
    }
}

/// After a change that was made, the template reads as it was saved, where its design is
/// one that is read back.
pub open spec fn reads_as_saved(
    v: StoreView,
    after: StoreView,
    id: int,
    name: Option<Seq<char>>,
    design: Option<JsonView>,
    html: Option<Seq<char>>,
    now: int,
) -> bool {
    match record(v, id) {
        Ok(before) => {
            let wanted = saved(before, name, design, html, now);
            json::reads_back(wanted.design_json) ==> record(after, id) == Ok::<
                RecordView,
                ErrorView,
            >(wanted)
        },
        Err(_) => false,
    }
}

/// A row once the template `id` was made the default template.
pub open spec fn row_after_default(row: RowView, id: int, now: int) -> RowView {
    if row.id == id {
        RowView { is_default: true, updated_at: now, ..row }
    } else {
        RowView { is_default: false, ..row }
    }
}

/// The template `id` as the default template, and no other.
pub open spec fn default_set(v: StoreView, id: int, now: int) -> (
    StoreView,
    Result<(), ErrorView>,
) {
    match record(v, id) {
        Err(e) => (v, Err(e)),
        Ok(_) => (
            StoreView {
                rows: v.rows.map_values(|row: RowView| row_after_default(row, id, now)),
                ..v
            },
            Ok(()),
        ),
    }
}

/// The store without a template; the default template stays.
pub open spec fn deleted(v: StoreView, id: int) -> (StoreView, Result<(), ErrorView>) {
    match record(v, id) {
        Err(e) => (v, Err(e)),
        Ok(r) => if r.is_default {
            (v, Err(ErrorView::OtherLibraryError("默认模板不能删除"@)))
        } else {
            (StoreView { rows: v.rows.remove(index_of(v.rows, id)->0), ..v }, Ok(()))
        },
    }
}

/// What the outcome of making a template holds.
pub open spec fn id_result(r: Result<i64, CustomError>) -> Result<int, ErrorView> {
    match r {
        Ok(id) => Ok(id as int),
        Err(e) => Err(e@),
    }
}

fn add_template(
    store: &mut TemplateStore,
    name: String,
    design_json: String,
    render_html: String,
    is_default: bool,
    now: i64,
) -> (r: Result<i64, CustomError>)
    requires
        old(store).is_valid(),
    ensures
        (final(store)@, id_result(r)) == with_template(
            old(store)@,
            name@,
            design_json@,
            render_html@,
            is_default,
            now as int,
        ),
        final(store).is_valid(),
{
    if store.last_id == i64::MAX {
        return Err(CustomError::DbError("database or disk is full".to_owned()));
    }
    let ghost before = store@.rows;
    let id: i64 = store.last_id + 1;
    let row = TemplateRow { id, name, design_json, render_html, is_default, updated_at: now };
    let ghost added = row@;
    store.rows.push(row);
    store.last_id = id;
    proof {
        assert(store@.rows =~= before.push(added));
    }
    Ok(id)
}

/// Makes a new, empty template and gives its id.
pub fn create(store: &mut TemplateStore, name: &str, now: i64) -> (r: Result<i64, CustomError>)
    requires
        old(store).is_valid(),
    ensures
        (final(store)@, id_result(r)) == created(old(store)@, name@, now as int),
        final(store).is_valid(),
{
    if text::chars_of(trimmed_str(name).as_str()).len() == 0 {
        return Err(other_error("模板名称不能为空"));
    }
    add_template(
        store,
        name.to_owned(),
        BLANK_DESIGN_JSON.to_owned(),
        BLANK_RENDER_HTML.to_owned(),
        false,
        now,
    )
}

/// Copies a template and gives the id of the copy.
pub fn copy(store: &mut TemplateStore, id: i64, now: i64) -> (r: Result<i64, CustomError>)
    requires
        old(store).is_valid(),
    ensures
        (final(store)@, id_result(r)) == copied(old(store)@, id as int, now as int),
        final(store).is_valid(),
        r matches Ok(new_id) ==> (record(old(store)@, id as int) matches Ok(source) && (
        json::reads_back(source.design_json) ==> record(final(store)@, new_id as int) == Ok::<
            RecordView,
            ErrorView,
        >(duplicate(source, new_id as int, now as int)))),
{
    match record_by_id(store, id) {
        Err(e) => Err(e),
        Ok(record) => {
            let ghost before = store@;
            let ghost source = record@;
            let mut name = record.name;
            name.append(" 副本");
            let design = record.design_json.to_text();
            proof {
                if before.last_id < i64::MAX {
                    new_template_is_apart(
                        before,
                        source.name + " 副本"@,
                        design@,
                        source.render_html,
                        false,
                        now as int,
                        id as int,
                    );
                }
            }
            add_template(store, name, design, record.render_html, false, now)
        },
    }
}

/// Makes the default template of an empty store; a design that is no JSON document is
/// not stored.
pub fn seed_default(
    store: &mut TemplateStore,
    name: &str,
    design_json: &str,
    render_html: &str,
    now: i64,
) -> (r: Result<(), CustomError>)
    requires
        old(store).is_valid(),
    ensures
        (final(store)@, err::done(r)) == seeded(
            old(store)@,
            name@,
            design_json@,
            render_html@,
            now as int,
        ),
        final(store).is_valid(),
{
    match parse(design_json) {
        Err(message) => Err(other_error_with("种子模板 JSON 非法: ", message.as_str())),
        Ok(_) => match add_template(
            store,
            name.to_owned(),
            design_json.to_owned(),
            render_html.to_owned(),
            true,
            now,
        ) {
            Ok(_) => Ok(()),
            Err(e) => Err(e),
        },
    }
}

/// Changes the name, the design and the page of a template where a new one is given.
pub fn update(
    store: &mut TemplateStore,
    id: i64,
    name: Option<&str>,
    design: Option<&Json>,
    html: Option<&str>,
    now: i64,
) -> (r: Result<(), CustomError>)
    requires
        old(store).is_valid(),
    ensures
        (final(store)@, err::done(r)) == updated(
            old(store)@,
            id as int,
            match name {
                Some(n) => Some(n@),
                None => None,
            },
            match design {
                Some(d) => Some(d@),
                None => None,
            },
            match html {
                Some(h) => Some(h@),
                None => None,
            },
            now as int,
        ),
        final(store).is_valid(),
        r is Ok ==> reads_as_saved(
            old(store)@,
            final(store)@,
            id as int,
            match name {
                Some(n) => Some(n@),
                None => None,
            },
            match design {
                Some(d) => Some(d@),
                None => None,
            },
            match html {
                Some(h) => Some(h@),
                None => None,
            },
            now as int,
        ),
{
    let record = match record_by_id(store, id) {
        Err(e) => {
            return Err(e);
        },
        Ok(record) => record,
    };
    let new_name = match name {
        Some(n) => n.to_owned(),
        None => record.name,
    };
    if text::chars_of(trimmed_str(new_name.as_str()).as_str()).len() == 0 {
        return Err(other_error("模板名称不能为空"));
    }
    match check_payload(design, html) {
        Err(e) => {
            return Err(e);
        },
        Ok(()) => {},
    }
    let new_design = match design {
        Some(d) => d.to_text(),
        None => record.design_json.to_text(),
    };
    let new_html = match html {
        Some(h) => h.to_owned(),
        None => record.render_html,
    };
    match find_id(store, id) {
        None => {
            assert(false);
        },
        Some(i) => {
            let ghost before = store@.rows;
            proof {
                first_index_is_first(before, with_id(id as int));
                assert(before[i as int] == store.rows@[i as int]@);
            }
            let row = TemplateRow {
                id,
                name: new_name,
                design_json: new_design,
                render_html: new_html,
                is_default: store.rows[i].is_default,
                updated_at: now,
            };
            let ghost changed = row@;
            store.rows.set(i, row);
            proof {
                assert(store@.rows =~= before.update(i as int, changed));
                row_is_found(store@, i as int);
            }
        },
    }
    Ok(())
}

/// Makes a template the default template, and no other. The caller then writes its page
/// to the file, where one is kept: `sync_render_file` gives it.
pub fn set_default(store: &mut TemplateStore, id: i64, now: i64) -> (r: Result<(), CustomError>)
    requires
        old(store).is_valid(),
    ensures
        (final(store)@, err::done(r)) == default_set(old(store)@, id as int, now as int),
        final(store).is_valid(),
        r is Ok ==> render_file(final(store)@, true) == Ok::<Option<Seq<char>>, ErrorView>(
            Some(old(store)@.rows[index_of(old(store)@.rows, id as int)->0].render_html),
        ),
{
    match record_by_id(store, id) {
        Err(e) => {
            return Err(e);
        },
        Ok(_) => {},
    }
    let ghost before = store@;
    let mut i: usize = 0;
    while i < store.rows.len()
        invariant
            before.is_valid(),
            i <= store.rows@.len(),
            store.rows@.len() == before.rows.len(),
            store@.last_id == before.last_id,
            store@.settings == before.settings,
            store.settings.is_valid(),
            forall|k: int|
                0 <= k < i ==> (#[trigger] store.rows@[k])@ == row_after_default(
                    before.rows[k],
                    id as int,
                    now as int,
                ),
            forall|k: int|
                i <= k < store.rows@.len() ==> (#[trigger] store.rows@[k])@ == before.rows[k],
        decreases store.rows@.len() - i,
    {
        if store.rows[i].id == id {
            store.rows[i].is_default = true;
            store.rows[i].updated_at = now;
        } else {
            store.rows[i].is_default = false;
        }
        i += 1;
    }
    proof {
        assert(store@.rows =~= before.rows.map_values(
            |row: RowView| row_after_default(row, id as int, now as int),
        ));
        default_moves(before, id as int, now as int);
    }
    Ok(())
}

/// Deletes a template; the default template stays.
pub fn delete(store: &mut TemplateStore, id: i64) -> (r: Result<(), CustomError>)
    requires
        old(store).is_valid(),
    ensures
        (final(store)@, err::done(r)) == deleted(old(store)@, id as int),
        final(store).is_valid(),
{
    match record_by_id(store, id) {
        Err(e) => {
            return Err(e);
        },
        Ok(record) => {
            if record.is_default {
                return Err(other_error("默认模板不能删除"));
            }
        },
    }
    match find_id(store, id) {
        None => {
            assert(false);
        },
        Some(i) => {
            let ghost before = store@.rows;
            store.rows.remove(i);
            proof {
                assert(store@.rows =~= before.remove(i as int));
            }
        },
    }
    Ok(())
}

// ---------------------------------------------------------------------------
// The file with the page of the default template
// ---------------------------------------------------------------------------

/// What the file with the page of the default template is to hold; nothing where no
/// such file is kept.
pub open spec fn render_file(v: StoreView, save_html: bool) -> Result<Option<Seq<char>>, ErrorView> {
    if !save_html {
        Ok(None)
    } else {
        match default_index(v.rows) {
            Some(i) => Ok(Some(v.rows[i].render_html)),
            None => Err(no_rows()),
        }
    }
}

/// What the outcome of a function that may return a text holds.
pub open spec fn file_result(r: Result<Option<String>, CustomError>) -> Result<
    Option<Seq<char>>,
    ErrorView,
> {
    match r {
        Ok(s) => Ok(text::text_option(s)),
        Err(e) => Err(e@),
    }
}

/// What the file with the page of the default template is to hold.
pub fn sync_render_file(store: &TemplateStore, save_html: bool) -> (r: Result<
    Option<String>,
    CustomError,
>)
    ensures
        file_result(r) == render_file(store@, save_html),
{
    if !save_html {
        return Ok(None);
    }
    match find_default(store) {
        Some(i) => {
            assert(store@.rows[i as int] == store.rows@[i as int]@);
            Ok(Some(store.rows[i].render_html.clone()))
        },
        None => Err(CustomError::DbError("Query returned no rows".to_owned())),
    }
}

/// What the file is to hold once the page `html` was saved; nothing where no such
/// file is kept.
pub fn write_render_file(html: &str, save_html: bool) -> (r: Option<String>)
    ensures
        text::text_option(r) == (if save_html {
            Some(html@)
        } else {
            None
        }),
{
    if save_html {
        Some(html.to_owned())
    } else {
        None
    }
}

/// A store at the start of the service: an empty one gets the default template.
pub open spec fn initialised(
    v: StoreView,
    design_json: Seq<char>,
    render_html: Seq<char>,
    save_html: bool,
    now: int,
) -> (StoreView, Result<Option<Seq<char>>, ErrorView>) {
    let (after, seed) = if v.rows.len() == 0 {
        seeded(v, DEFAULT_TEMPLATE_NAME@, design_json, render_html, now)
    } else {
        (v, Ok(()))
    };
    match seed {
        Err(e) => (after, Err(e)),
        Ok(()) => (after, render_file(after, save_html)),
    }
}

/// Seeds an empty store and gives what the file with the page of the default template
/// is to hold.
pub fn init(
    store: &mut TemplateStore,
    design_json: &str,
    render_html: &str,
    save_html: bool,
    now: i64,
) -> (r: Result<Option<String>, CustomError>)
    requires
        old(store).is_valid(),
    ensures
        (final(store)@, file_result(r)) == initialised(
            old(store)@,
            design_json@,
            render_html@,
            save_html,
            now as int,
        ),
        final(store).is_valid(),
{
    if store.rows.len() == 0 {
        match seed_default(store, DEFAULT_TEMPLATE_NAME, design_json, render_html, now) {
            Err(e) => {
                return Err(e);
            },
            Ok(()) => {},
        }
    }
    sync_render_file(store, save_html)
}

// ---------------------------------------------------------------------------
// The settings of the stations
// ---------------------------------------------------------------------------

/// What a store says of a station.
pub open spec fn station_settings(v: StoreView, station: Seq<char>) -> Option<SettingsView> {
    if v.settings.contains_key(station) {
        Some(v.settings[station])
    } else {
        None
    }
}

/// Sets the settings of a station; settings that it had before are replaced as a
/// whole.
pub fn set_agent_settings(store: &mut TemplateStore, station: &str, settings: &AgentSettings)
    requires
        old(store).is_valid(),
    ensures
        final(store)@ == (StoreView {
            settings: old(store)@.settings.insert(station@, settings@),
            ..old(store)@
        }),
        final(store).is_valid(),
{
    store.settings.insert(station.to_owned(), settings.copied());
}

/// The settings of a station; nothing where they were never set.
pub fn get_agent_settings(store: &TemplateStore, station: &str) -> (r: Option<AgentSettings>)
    requires
        store.is_valid(),
    ensures
        station_settings(store@, station@) == (match r {
            Some(settings) => Some(settings@),
            None => None,
        }),
{
    match store.settings.get(station) {
        Some(settings) => Some(settings.copied()),
        None => None,
    }
}

/// Removes the settings of a station.
pub fn delete_agent_settings(store: &mut TemplateStore, station: &str)
    requires
        old(store).is_valid(),
    ensures
        final(store)@ == (StoreView {
            settings: old(store)@.settings.remove(station@),
            ..old(store)@
        }),
        final(store).is_valid(),
{
    let _ = store.settings.remove(station);
}

// ---------------------------------------------------------------------------
// What holds of every store
// ---------------------------------------------------------------------------

/// The row `i` is the default template, and no other is.
pub open spec fn is_only_default(rows: Seq<RowView>, i: int) -> bool {
    &&& 0 <= i < rows.len()
    &&& rows[i].is_default
    &&& forall|j: int| 0 <= j < rows.len() && (#[trigger] rows[j]).is_default ==> j == i
}

/// There is one default template.
pub open spec fn has_one_default(v: StoreView) -> bool {
    exists|i: int| is_only_default(v.rows, i)
}

/// A row is found by its id.
pub proof fn row_is_found(v: StoreView, i: int)
    requires
        v.is_valid(),
        0 <= i < v.rows.len(),
    ensures
        index_of(v.rows, v.rows[i].id) == Some(i),
{
    let id = v.rows[i].id;
    first_index_is_first(v.rows, with_id(id));
    match index_of(v.rows, id) {
        Some(k) => {
            assert(with_id(id)(v.rows[k]));
            if k < i {
                assert(v.rows[k].id < v.rows[i].id);
            }
            if i < k {
                assert(v.rows[i].id < v.rows[k].id);
            }
        },
        None => {
            assert(!with_id(id)(v.rows[i]));
        },
    }
}

/// An empty store that is seeded has one default template.
pub proof fn seeding_gives_one_default(
    v: StoreView,
    name: Seq<char>,
    design_json: Seq<char>,
    render_html: Seq<char>,
    now: int,
)
    requires
        v.rows.len() == 0,
        seeded(v, name, design_json, render_html, now).1 is Ok,
    ensures
        has_one_default(seeded(v, name, design_json, render_html, now).0),
{
    assert(is_only_default(seeded(v, name, design_json, render_html, now).0.rows, 0));
}

/// There is one default template after every change, where there was one before.
pub proof fn one_default_is_kept(
    v: StoreView,
    id: int,
    name: Seq<char>,
    new_name: Option<Seq<char>>,
    design: Option<JsonView>,
    html: Option<Seq<char>>,
    now: int,
)
    requires
        v.is_valid(),
        has_one_default(v),
    ensures
        has_one_default(created(v, name, now).0),
        has_one_default(copied(v, id, now).0),
        has_one_default(updated(v, id, new_name, design, html, now).0),
        has_one_default(default_set(v, id, now).0),
        has_one_default(deleted(v, id).0),
{
    let d = choose|i: int| is_only_default(v.rows, i);
    first_index_is_first(v.rows, with_id(id));
    let rows1 = created(v, name, now).0.rows;
    assert(is_only_default(rows1, d)) by {
        assert forall|j: int| 0 <= j < rows1.len() && (#[trigger] rows1[j]).is_default implies j
            == d by {
            if j < v.rows.len() {
                assert(rows1[j] == v.rows[j]);
            }
        }
    }
    let rows2 = copied(v, id, now).0.rows;
    assert(is_only_default(rows2, d)) by {
        assert forall|j: int| 0 <= j < rows2.len() && (#[trigger] rows2[j]).is_default implies j
            == d by {
            if j < v.rows.len() {
                assert(rows2[j] == v.rows[j]);
            }
        }
    }
    let rows3 = updated(v, id, new_name, design, html, now).0.rows;
    assert(is_only_default(rows3, d)) by {
        assert forall|j: int| 0 <= j < rows3.len() implies (#[trigger] rows3[j]).is_default
            == v.rows[j].is_default by {}
    }
    let rows4 = default_set(v, id, now).0.rows;
    if record(v, id) is Ok {
        let i = index_of(v.rows, id)->0;
        assert(with_id(id)(v.rows[i]));
        default_moves(v, id, now);
    } else {
        assert(is_only_default(rows4, d));
    }
    let rows5 = deleted(v, id).0.rows;
    if deleted(v, id).1 is Ok {
        let i = index_of(v.rows, id)->0;
        assert(with_id(id)(v.rows[i]));
        assert(i != d);
        let d5 = if d < i { d } else { d - 1 };
        assert(rows5[d5] == v.rows[d]);
        assert forall|j: int| 0 <= j < rows5.len() && (#[trigger] rows5[j]).is_default implies j
            == d5 by {
            let j0 = if j < i { j } else { j + 1 };
            assert(rows5[j] == v.rows[j0]);
        }
        assert(is_only_default(rows5, d5));
    } else {
        assert(is_only_default(rows5, d));
    }
}

/// A template that was made the default template is the only one, and is the one that
/// is read and rendered where none is named. The file, where one is kept, is to hold its
/// page.
pub proof fn default_moves(v: StoreView, id: int, now: int)
    requires
        v.is_valid(),
        default_set(v, id, now).1 is Ok,
    ensures
        index_of(v.rows, id) is Some,
        is_only_default(default_set(v, id, now).0.rows, index_of(v.rows, id)->0),
        default_index(default_set(v, id, now).0.rows) == index_of(v.rows, id),
        selected_html(default_set(v, id, now).0, None) == Ok::<Seq<char>, ErrorView>(
            v.rows[index_of(v.rows, id)->0].render_html,
        ),
        render_file(default_set(v, id, now).0, true) == Ok::<Option<Seq<char>>, ErrorView>(
            Some(v.rows[index_of(v.rows, id)->0].render_html),
        ),
{
    first_index_is_first(v.rows, with_id(id));
    let i = index_of(v.rows, id)->0;
    assert(with_id(id)(v.rows[i]));
    let rows = default_set(v, id, now).0.rows;
    assert forall|j: int| 0 <= j < rows.len() && (#[trigger] rows[j]).is_default implies j == i by {
        assert(v.rows[j].id == id);
        row_is_found(v, j);
    }
    assert(rows[i] == row_after_default(v.rows[i], id, now));
    first_index_is_first(rows, defaults());
    match default_index(rows) {
        Some(k) => {
            assert(defaults()(rows[k]));
            assert(rows[k].is_default);
        },
        None => {
            assert(!defaults()(rows[i]));
        },
    }
}

/// The default template cannot be deleted: the attempt changes nothing.
pub proof fn default_cannot_be_deleted(v: StoreView, i: int)
    requires
        v.is_valid(),
        0 <= i < v.rows.len(),
        v.rows[i].is_default,
    ensures
        deleted(v, v.rows[i].id).0 == v,
        deleted(v, v.rows[i].id).1 is Err,
        record(v, v.rows[i].id) is Ok ==> deleted(v, v.rows[i].id).1 == Err::<(), ErrorView>(
            ErrorView::OtherLibraryError("默认模板不能删除"@),
        ),
{
    row_is_found(v, i);
}

/// Once another template is the default template, the former one can be deleted.
pub proof fn former_default_can_be_deleted(v: StoreView, id: int, i: int, now: int)
    requires
        v.is_valid(),
        0 <= i < v.rows.len(),
        v.rows[i].id != id,
        record(v, v.rows[i].id) is Ok,
        default_set(v, id, now).1 is Ok,
    ensures
        deleted(default_set(v, id, now).0, v.rows[i].id).1 is Ok,
{
    let after = default_set(v, id, now).0;
    row_is_found(v, i);
    assert(after.rows[i] == row_after_default(v.rows[i], id, now));
    assert(after.is_valid()) by {
        assert forall|a: int| 0 <= a < after.rows.len() implies (#[trigger] after.rows[a]).id
            == v.rows[a].id by {}
    }
    row_is_found(after, i);
}

/// A template that was deleted is gone, and every other one reads as before.
pub proof fn deleting_removes_one_template(v: StoreView, id: int, other: int)
    requires
        v.is_valid(),
        deleted(v, id).1 is Ok,
    ensures
        record(deleted(v, id).0, id) == Err::<RecordView, ErrorView>(no_template(id)),
        other != id ==> record(deleted(v, id).0, other) == record(v, other),
{
    let after = deleted(v, id).0;
    first_index_is_first(v.rows, with_id(id));
    let i = index_of(v.rows, id)->0;
    assert(with_id(id)(v.rows[i]));
    assert forall|j: int| 0 <= j < after.rows.len() implies #[trigger] after.rows[j] == (if j < i {
        v.rows[j]
    } else {
        v.rows[j + 1]
    }) by {}
    assert(after.is_valid());
    first_index_is_first(after.rows, with_id(id));
    if let Some(k) = index_of(after.rows, id) {
        assert(with_id(id)(after.rows[k]));
        let k0 = if k < i { k } else { k + 1 };
        assert(v.rows[k0].id == id);
        row_is_found(v, k0);
    }
    if other != id {
        first_index_is_first(v.rows, with_id(other));
        first_index_is_first(after.rows, with_id(other));
        match index_of(v.rows, other) {
            Some(k) => {
                assert(with_id(other)(v.rows[k]));
                let k1 = if k < i { k } else { k - 1 };
                assert(after.rows[k1] == v.rows[k]);
                row_is_found(after, k1);
            },
            None => {
                if let Some(k) = index_of(after.rows, other) {
                    assert(with_id(other)(after.rows[k]));
                    let k0 = if k < i { k } else { k + 1 };
                    assert(!with_id(other)(v.rows[k0]));
                }
            },
        }
    }
}

/// A new template has an id that no template had before, reads as it was made, and
/// leaves every other template as it is.
pub proof fn new_template_is_apart(
    v: StoreView,
    name: Seq<char>,
    design_json: Seq<char>,
    render_html: Seq<char>,
    is_default: bool,
    now: int,
    other: int,
)
    requires
        v.is_valid(),
        v.last_id < i64::MAX,
    ensures
        ({
            let (after, id) = with_template(v, name, design_json, render_html, is_default, now);
            &&& id == Ok::<int, ErrorView>(v.last_id + 1)
            &&& record(v, v.last_id + 1) is Err
            &&& record(after, v.last_id + 1) == record_with(
                RowView {
                    id: v.last_id + 1,
                    name,
                    design_json,
                    render_html,
                    is_default,
                    updated_at: now,
                },
                json::document(design_json),
            )
            &&& other != v.last_id + 1 ==> record(after, other) == record(v, other)
        }),
{
    let after = with_template(v, name, design_json, render_html, is_default, now).0;
    let id = v.last_id + 1;
    assert(after.rows.drop_last() =~= v.rows);
    first_index_is_first(v.rows, with_id(id));
    if let Some(k) = index_of(v.rows, id) {
        assert(with_id(id)(v.rows[k]));
    }
    if let Some(k) = index_of(v.rows, other) {
        first_index_is_first(v.rows, with_id(other));
    }
    assert(!with_id(other)(after.rows.last()) || other == id);
}

/// What a change of a template leaves alone: every other template, and whether the
/// template is the default template.
pub proof fn update_touches_one_template(
    v: StoreView,
    id: int,
    name: Option<Seq<char>>,
    design: Option<JsonView>,
    html: Option<Seq<char>>,
    now: int,
    i: int,
)
    requires
        v.is_valid(),
        0 <= i < v.rows.len(),
    ensures
        ({
            let rows = updated(v, id, name, design, html, now).0.rows;
            &&& rows.len() == v.rows.len()
            &&& v.rows[i].id != id ==> rows[i] == v.rows[i]
            &&& rows[i].id == v.rows[i].id
            &&& rows[i].is_default == v.rows[i].is_default
        }),
{
    first_index_is_first(v.rows, with_id(id));
    if let Some(k) = index_of(v.rows, id) {
        assert(with_id(id)(v.rows[k]));
    }
}

/// A change of a template leaves every other template as it reads.
pub proof fn update_leaves_others(
    v: StoreView,
    id: int,
    name: Option<Seq<char>>,
    design: Option<JsonView>,
    html: Option<Seq<char>>,
    now: int,
    other: int,
)
    requires
        v.is_valid(),
        other != id,
    ensures
        record(updated(v, id, name, design, html, now).0, other) == record(v, other),
{
    let after = updated(v, id, name, design, html, now).0;
    first_index_is_first(v.rows, with_id(id));
    if let Some(k) = index_of(v.rows, id) {
        assert(with_id(id)(v.rows[k]));
    }
    assert(forall|i: int| 0 <= i < v.rows.len() ==> (#[trigger] after.rows[i]).id == v.rows[i].id);
    assert(after.is_valid());
    first_index_is_first(v.rows, with_id(other));
    first_index_is_first(after.rows, with_id(other));
    match index_of(v.rows, other) {
        Some(k) => {
            assert(with_id(other)(v.rows[k]));
            assert(after.rows[k] == v.rows[k]);
            row_is_found(after, k);
        },
        None => {
            if let Some(k) = index_of(after.rows, other) {
                assert(with_id(other)(after.rows[k]));
                assert(with_id(other)(v.rows[k]));
            }
        },
    }
}

/// The settings of a station are what was set last, whatever was set before; once
/// removed they are gone; other stations keep theirs.
pub proof fn settings_read_back(
    v: StoreView,
    station: Seq<char>,
    other: Seq<char>,
    first: SettingsView,
    second: SettingsView,
)
    requires
        other != station,
    ensures
        ({
            let once = StoreView { settings: v.settings.insert(station, first), ..v };
            let twice = StoreView { settings: once.settings.insert(station, second), ..once };
            let gone = StoreView { settings: twice.settings.remove(station), ..twice };
            &&& station_settings(once, station) == Some(first)
            &&& station_settings(twice, station) == Some(second)
            &&& station_settings(gone, station) is None
            &&& station_settings(once, other) == station_settings(v, other)
            &&& station_settings(gone, other) == station_settings(v, other)
        }),
{
}

// ---------------------------------------------------------------------------
// What the operations are for
// ---------------------------------------------------------------------------

/// What is stored, listed and read says what its fields hold, one by one.
pub proof fn fields_say_what_they_hold(
    row: TemplateRow,
    entry: TemplateSummary,
    record: TemplateRecord,
    settings: AgentSettings,
    rows: Seq<TemplateRow>,
    list: Seq<TemplateSummary>,
    i: int,
)
    ensures
        entries(list).len() == list.len(),
        0 <= i < list.len() ==> entries(list)[i] == list[i]@,
        row@.id == row.id,
        row@.name == row.name@,
        row@.design_json == row.design_json@,
        row@.render_html == row.render_html@,
        row@.is_default == row.is_default,
        row@.updated_at == row.updated_at,
        entry@.id == entry.id,
        entry@.name == entry.name@,
        entry@.is_default == entry.is_default,
        entry@.updated_at == entry.updated_at,
        record@.id == record.id,
        record@.name == record.name@,
        record@.is_default == record.is_default,
        record@.updated_at == record.updated_at,
        record@.design_json == record.design_json@,
        record@.render_html == record.render_html@,
        settings.printer matches Some(p) ==> settings@.printer == Some(p@),
        settings.printer is None ==> settings@.printer is None,
        settings@.paper_width == settings.paper_width,
        settings@.paper_height == settings.paper_height,
        rows_view(rows).len() == rows.len(),
        0 <= i < rows.len() ==> rows_view(rows)[i] == rows[i]@,
        no_override().printer is None && no_override().paper_width is None
            && no_override().paper_height is None,
{
}

/// What an operation returns is its value or its error.
pub proof fn outcomes_say_what_they_hold(
    record: TemplateRecord,
    id: i64,
    file: Option<String>,
    e: CustomError,
)
    ensures
        record_result(Ok(record)) == Ok::<RecordView, ErrorView>(record@),
        record_result(Err(e)) == Err::<RecordView, ErrorView>(e@),
        id_result(Ok(id)) == Ok::<int, ErrorView>(id as int),
        id_result(Err(e)) == Err::<int, ErrorView>(e@),
        file matches Some(f) ==> file_result(Ok(file)) == Ok::<Option<Seq<char>>, ErrorView>(
            Some(f@),
        ),
        file is None ==> file_result(Ok(file)) == Ok::<Option<Seq<char>>, ErrorView>(None),
        file_result(Err(e)) == Err::<Option<Seq<char>>, ErrorView>(e@),
{
}

/// `entry` tells of the template `row`.
pub open spec fn tells_of(entry: SummaryView, row: RowView) -> bool {
    &&& entry.id == row.id
    &&& entry.name == row.name
    &&& entry.is_default == row.is_default
    &&& entry.updated_at == row.updated_at
}

/// `entry` tells of one of the stored templates.
pub open spec fn tells_of_one(entry: SummaryView, rows: Seq<RowView>) -> bool {
    exists|i: int| 0 <= i < rows.len() && #[trigger] tells_of(entry, rows[i])
}

/// An entry of a list tells of the template `row`.
pub open spec fn is_told(list: Seq<SummaryView>, row: RowView) -> bool {
    exists|k: int| 0 <= k < list.len() && #[trigger] tells_of(list[k], row)
}

/// Every entry of a list tells of a stored template: its id, its name, whether it is the
/// default template and when it was updated; and every stored template is in the list.
pub proof fn list_tells_of_the_templates(v: StoreView, list: Seq<SummaryView>)
    requires
        list.to_multiset() == summaries(v.rows).to_multiset(),
    ensures
        list.len() == v.rows.len(),
        forall|k: int| 0 <= k < list.len() ==> tells_of_one(#[trigger] list[k], v.rows),
        forall|i: int| 0 <= i < v.rows.len() ==> is_told(list, #[trigger] v.rows[i]),
{
    broadcast use vstd::seq_lib::group_to_multiset_ensures;

    let all = summaries(v.rows);
    assert(list.len() == list.to_multiset().len());
    assert(all.len() == all.to_multiset().len());
    assert forall|k: int| 0 <= k < list.len() implies tells_of_one(
        #[trigger] list[k],
        v.rows,
    ) by {
        assert(list.contains(list[k]));
        assert(all.to_multiset().count(list[k]) > 0);
        assert(all.contains(list[k]));
        let i = choose|i: int| 0 <= i < all.len() && all[i] == list[k];
        assert(tells_of(list[k], v.rows[i]));
    }
    assert forall|i: int| 0 <= i < v.rows.len() implies is_told(list, #[trigger] v.rows[i]) by {
        assert(all.contains(all[i]));
        assert(list.to_multiset().count(all[i]) > 0);
        assert(list.contains(all[i]));
        let k = choose|k: int| 0 <= k < list.len() && list[k] == all[i];
        assert(tells_of(list[k], v.rows[i]));
    }
}

/// A list starts with the default template; of the others, what was updated last comes
/// first, and of those updated together what was made first.
pub proof fn list_is_ordered(list: Seq<SummaryView>, i: int, j: int)
    requires
        in_order(list),
        0 <= i < j < list.len(),
    ensures
        list[j].is_default ==> list[i].is_default,
        list[i].is_default == list[j].is_default ==> list[i].updated_at >= list[j].updated_at,
        list[i].is_default == list[j].is_default && list[i].updated_at == list[j].updated_at
            ==> list[i].id < list[j].id,
{
    assert(stands_before(list[i], list[j]));
}

/// A template is read by its id with the name, the mark, the time, the page and what the
/// design document says, all as they are stored.
pub proof fn templates_read_as_stored(v: StoreView, i: int, design: JsonView, message: Seq<char>)
    requires
        v.is_valid(),
        0 <= i < v.rows.len(),
    ensures
        json::document(v.rows[i].design_json) == Ok::<JsonView, Seq<char>>(design) ==> (record(
            v,
            v.rows[i].id,
        ) matches Ok(r) && r.id == v.rows[i].id && r.name == v.rows[i].name && r.is_default
            == v.rows[i].is_default && r.updated_at == v.rows[i].updated_at && r.render_html
            == v.rows[i].render_html && r.design_json == design),
        json::document(v.rows[i].design_json) == Err::<JsonView, Seq<char>>(message) ==> record(
            v,
            v.rows[i].id,
        ) == Err::<RecordView, ErrorView>(ErrorView::JsonError(message)),
{
    row_is_found(v, i);
}

/// A template that is not there is told by its id.
pub proof fn missing_templates_are_told(v: StoreView, id: int)
    requires
        forall|i: int| 0 <= i < v.rows.len() ==> (#[trigger] v.rows[i]).id != id,
    ensures
        record(v, id) == Err::<RecordView, ErrorView>(
            ErrorView::OtherLibraryError("模板不存在: "@ + decimal::decimal(id)),
        ),
        created(v, seq![], 0).0 == v,
        copied(v, id, 0) == (v, Err::<int, ErrorView>(
            ErrorView::OtherLibraryError("模板不存在: "@ + decimal::decimal(id)),
        )),
        deleted(v, id) == (v, Err::<(), ErrorView>(
            ErrorView::OtherLibraryError("模板不存在: "@ + decimal::decimal(id)),
        )),
        default_set(v, id, 0) == (v, Err::<(), ErrorView>(
            ErrorView::OtherLibraryError("模板不存在: "@ + decimal::decimal(id)),
        )),
        updated(v, id, None, None, None, 0) == (v, Err::<(), ErrorView>(
            ErrorView::OtherLibraryError("模板不存在: "@ + decimal::decimal(id)),
        )),
{
    first_index_is_first(v.rows, with_id(id));
    if let Some(i) = index_of(v.rows, id) {
        assert(with_id(id)(v.rows[i]));
    }
    text::trimming_drops_white_space(Seq::<char>::empty());
}

/// Without an id, the default template is read; a store without one has none to read.
pub proof fn default_template_is_read(v: StoreView, i: int, id: i64)
    ensures
        chosen(v, Some(id)) == record(v, id as int),
        is_only_default(v.rows, i) ==> chosen(v, None) == record(v, v.rows[i].id),
        (forall|k: int| 0 <= k < v.rows.len() ==> !(#[trigger] v.rows[k]).is_default) ==> chosen(
            v,
            None,
        ) == Err::<RecordView, ErrorView>(ErrorView::DbError("Query returned no rows"@)),
{
    first_index_is_first(v.rows, defaults());
    if let Some(k) = default_index(v.rows) {
        assert(defaults()(v.rows[k]));
    } else if 0 <= i < v.rows.len() {
        assert(!defaults()(v.rows[i]));
    }
}

/// The page that is rendered: that of the default template where none is named, of the
/// template with that id where a number is named, and of the template of that name that was
/// updated last where another text is.
pub proof fn selectors_select_pages(v: StoreView, i: int, name: Seq<char>)
    requires
        v.is_valid(),
        0 <= i < v.rows.len(),
    ensures
        is_only_default(v.rows, i) ==> selected_html(v, None) == Ok::<Seq<char>, ErrorView>(
            v.rows[i].render_html,
        ),
        selected_html(v, Some(decimal::decimal(v.rows[i].id))) == Ok::<Seq<char>, ErrorView>(
            v.rows[i].render_html,
        ),
        v.rows[i].name == name && decimal::parsed(name, i64::MIN as int, i64::MAX as int) is None
            && (forall|j: int|
            0 <= j < v.rows.len() && j != i && (#[trigger] v.rows[j]).name == name
                ==> v.rows[j].updated_at < v.rows[i].updated_at) ==> selected_html(v, Some(name))
            == Ok::<Seq<char>, ErrorView>(v.rows[i].render_html),
{
    default_template_is_read(v, i, 0);
    first_index_is_first(v.rows, defaults());
    if let Some(k) = default_index(v.rows) {
        assert(defaults()(v.rows[k]));
    } else {
        assert(!defaults()(v.rows[i]));
    }
    decimal::decimal_reads_back(v.rows[i].id, i64::MIN as int, i64::MAX as int);
    row_is_found(v, i);
    newest_index_is_newest(v.rows, name);
}

/// A selector that selects nothing is told.
pub proof fn missing_pages_are_told(v: StoreView, id: int, name: Seq<char>)
    ensures
        (forall|k: int| 0 <= k < v.rows.len() ==> !(#[trigger] v.rows[k]).is_default)
            ==> selected_html(v, None) == Err::<Seq<char>, ErrorView>(
            ErrorView::OtherLibraryError("模板不存在: "@ + "<default>"@),
        ),
        i64::MIN <= id <= i64::MAX && (forall|k: int|
            0 <= k < v.rows.len() ==> (#[trigger] v.rows[k]).id != id) ==> selected_html(
            v,
            Some(decimal::decimal(id)),
        ) == Err::<Seq<char>, ErrorView>(
            ErrorView::OtherLibraryError("模板不存在: "@ + decimal::decimal(id)),
        ),
        decimal::parsed(name, i64::MIN as int, i64::MAX as int) is None && (forall|k: int|
            0 <= k < v.rows.len() ==> (#[trigger] v.rows[k]).name != name) ==> selected_html(
            v,
            Some(name),
        ) == Err::<Seq<char>, ErrorView>(ErrorView::OtherLibraryError("模板不存在: "@ + name)),
{
    first_index_is_first(v.rows, defaults());
    if let Some(k) = default_index(v.rows) {
        assert(defaults()(v.rows[k]));
    }
    if i64::MIN <= id <= i64::MAX {
        decimal::decimal_reads_back(id, i64::MIN as int, i64::MAX as int);
        first_index_is_first(v.rows, with_id(id));
        if let Some(k) = index_of(v.rows, id) {
            assert(with_id(id)(v.rows[k]));
        }
    }
    newest_index_is_newest(v.rows, name);
}

/// A name is blank where it holds nothing but white space.
pub proof fn names_of_white_space_are_blank(name: Seq<char>)
    ensures
        is_blank(name) <==> forall|i: int|
            0 <= i < name.len() ==> text::is_white(#[trigger] name[i]),
{
    text::trimming_drops_white_space(name);
    let (a, b) = choose|a: int, b: int|
        #[trigger] text::is_core(name, a, b) && text::trim(name) == name.subrange(a, b);
    if is_blank(name) {
        assert(a == b);
    } else {
        assert(!text::is_white(name[a]));
    }
}

/// A new template is added behind the others under the next id, with the name that it was
/// given and a blank design and page, and is not the default template. Nothing else changes.
/// A name of white space is refused.
pub proof fn new_templates_have_their_name(
    v: StoreView,
    name: Seq<char>,
    now: int,
    list: Seq<SummaryView>,
    c: int,
)
    requires
        v.is_valid(),
        0 <= c < name.len(),
        !text::is_white(name[c]),
        v.last_id < i64::MAX,
    ensures
        ({
            let (after, r) = created(v, name, now);
            &&& r == Ok::<int, ErrorView>(v.last_id + 1)
            &&& after.rows.len() == v.rows.len() + 1
            &&& after.rows.drop_last() == v.rows
            &&& after.settings == v.settings
            &&& after.last_id == v.last_id + 1
            &&& after.rows.last().id == v.last_id + 1
            &&& after.rows.last().name == name
            &&& after.rows.last().render_html == BLANK_RENDER_HTML@
            &&& after.rows.last().design_json == BLANK_DESIGN_JSON@
            &&& !after.rows.last().is_default
            &&& after.rows.last().updated_at == now
            &&& list.to_multiset() == summaries(after.rows).to_multiset() ==> exists|k: int|
                0 <= k < list.len() && (#[trigger] list[k]).id == v.last_id + 1 && list[k].name
                    == name && !list[k].is_default && list[k].updated_at == now
        }),
{
    names_of_white_space_are_blank(name);
    let after = created(v, name, now).0;
    assert(after.rows.drop_last() =~= v.rows);
    if list.to_multiset() == summaries(after.rows).to_multiset() {
        list_tells_of_the_templates(after, list);
        let last = after.rows.len() - 1;
        assert(is_told(list, after.rows[last]));
        let k = choose|k: int|
            0 <= k < list.len() && #[trigger] tells_of(list[k], after.rows[last]);
        assert(list[k].id == v.last_id + 1);
    }
}

/// What is refused changes nothing, and is told: a name of white space, and a store that
/// has handed out every id.
pub proof fn refused_templates_change_nothing(v: StoreView, name: Seq<char>, now: int)
    ensures
        (forall|i: int| 0 <= i < name.len() ==> text::is_white(#[trigger] name[i])) ==> created(
            v,
            name,
            now,
        ) == (v, Err::<int, ErrorView>(ErrorView::OtherLibraryError("模板名称不能为空"@))),
        v.last_id == i64::MAX && !(forall|i: int|
            0 <= i < name.len() ==> text::is_white(#[trigger] name[i])) ==> created(v, name, now)
            == (v, Err::<int, ErrorView>(ErrorView::DbError("database or disk is full"@))),
{
    names_of_white_space_are_blank(name);
}

/// A copy is added behind the others under the next id: it has the page and the design of
/// its source, its name with a mark behind it, and is not the default template.
pub proof fn copies_are_like_their_source(
    v: StoreView,
    i: int,
    design: JsonView,
    now: int,
)
    requires
        v.is_valid(),
        0 <= i < v.rows.len(),
        v.last_id < i64::MAX,
        json::document(v.rows[i].design_json) == Ok::<JsonView, Seq<char>>(design),
    ensures
        ({
            let (after, r) = copied(v, v.rows[i].id, now);
            let copy = after.rows.last();
            &&& r == Ok::<int, ErrorView>(v.last_id + 1)
            &&& after.rows.len() == v.rows.len() + 1
            &&& after.rows.drop_last() == v.rows
            &&& after.settings == v.settings
            &&& copy.id == v.last_id + 1
            &&& copy.name == v.rows[i].name + " 副本"@
            &&& copy.render_html == v.rows[i].render_html
            &&& copy.design_json == json::compact(design)
            &&& !copy.is_default
            &&& copy.updated_at == now
        }),
{
    row_is_found(v, i);
    assert(copied(v, v.rows[i].id, now).0.rows.drop_last() =~= v.rows);
}

/// A change of a template gives it the name, the design and the page that are given, leaves
/// what is not given, and notes the time. Other templates stay as they are.
pub proof fn changes_are_stored(
    v: StoreView,
    i: int,
    name: Option<Seq<char>>,
    design: Option<JsonView>,
    html: Option<Seq<char>>,
    now: int,
    old_design: JsonView,
    j: int,
)
    requires
        v.is_valid(),
        0 <= i < v.rows.len(),
        0 <= j < v.rows.len(),
        json::document(v.rows[i].design_json) == Ok::<JsonView, Seq<char>>(old_design),
        updated(v, v.rows[i].id, name, design, html, now).1 is Ok,
    ensures
        ({
            let after = updated(v, v.rows[i].id, name, design, html, now).0;
            let row = after.rows[i];
            &&& after.rows.len() == v.rows.len()
            &&& after.settings == v.settings
            &&& after.last_id == v.last_id
            &&& j != i ==> after.rows[j] == v.rows[j]
            &&& row.id == v.rows[i].id
            &&& row.is_default == v.rows[i].is_default
            &&& row.updated_at == now
            &&& name matches Some(n) ==> row.name == n
            &&& name is None ==> row.name == v.rows[i].name
            &&& html matches Some(h) ==> row.render_html == h
            &&& html is None ==> row.render_html == v.rows[i].render_html
            &&& design matches Some(d) ==> row.design_json == json::compact(d)
            &&& design is None ==> row.design_json == json::compact(old_design)
        }),
{
    row_is_found(v, i);
}

/// When a change is refused: for a name of white space, for a design without an array of
/// panels, and for a page without the element `app`. Nothing is changed then; everything
/// else is stored.
pub proof fn bad_changes_are_refused(
    v: StoreView,
    i: int,
    name: Option<Seq<char>>,
    design: Option<JsonView>,
    html: Option<Seq<char>>,
    now: int,
    old_design: JsonView,
)
    requires
        v.is_valid(),
        0 <= i < v.rows.len(),
        json::document(v.rows[i].design_json) == Ok::<JsonView, Seq<char>>(old_design),
    ensures
        ({
            let (after, r) = updated(v, v.rows[i].id, name, design, html, now);
            let new_name = match name {
                Some(n) => n,
                None => v.rows[i].name,
            };
            let blank = text::trim(new_name).len() == 0;
            let no_panels = match design {
                Some(d) => !(json::field(d, "panels"@) is Some && json::field(d, "panels"@)->0
                    is Array),
                None => false,
            };
            let no_app = match html {
                Some(h) => !text::occurs(h, "id=\"app\""@),
                None => false,
            };
            &&& r is Ok <==> !blank && !no_panels && !no_app
            &&& r is Err ==> after == v
            &&& blank ==> r == Err::<(), ErrorView>(
                ErrorView::OtherLibraryError("模板名称不能为空"@),
            )
            &&& !blank && no_panels ==> r == Err::<(), ErrorView>(
                ErrorView::OtherLibraryError("模板 JSON 缺少 panels 数组"@),
            )
            &&& !blank && !no_panels && no_app ==> r == Err::<(), ErrorView>(
                ErrorView::OtherLibraryError("模板 HTML 缺少 #app 容器"@),
            )
        }),
{
    row_is_found(v, i);
    names_of_white_space_are_blank(
        match name {
            Some(n) => n,
            None => v.rows[i].name,
        },
    );
}

/// Making a template the default template changes its mark and its time and the marks of
/// the others, and nothing else of any template.
pub proof fn setting_the_default_keeps_the_templates(v: StoreView, id: int, now: int, j: int)
    requires
        v.is_valid(),
        0 <= j < v.rows.len(),
        default_set(v, id, now).1 is Ok,
    ensures
        ({
            let after = default_set(v, id, now).0;
            &&& after.rows.len() == v.rows.len()
            &&& after.settings == v.settings
            &&& after.last_id == v.last_id
            &&& after.rows[j].is_default == (v.rows[j].id == id)
            &&& after.rows[j].updated_at == (if v.rows[j].id == id {
                now
            } else {
                v.rows[j].updated_at
            })
            &&& after.rows[j].id == v.rows[j].id
            &&& after.rows[j].name == v.rows[j].name
            &&& after.rows[j].design_json == v.rows[j].design_json
            &&& after.rows[j].render_html == v.rows[j].render_html
        }),
{
}

/// Deleting a template that is not the default template takes out that one and leaves the
/// others in their order; the default template is kept.
pub proof fn deleting_takes_out_one_template(v: StoreView, i: int, design: JsonView, j: int)
    requires
        v.is_valid(),
        0 <= i < v.rows.len(),
        0 <= j < v.rows.len() - 1,
        json::document(v.rows[i].design_json) == Ok::<JsonView, Seq<char>>(design),
    ensures
        ({
            let (after, r) = deleted(v, v.rows[i].id);
            &&& v.rows[i].is_default ==> after == v && r == Err::<(), ErrorView>(
                ErrorView::OtherLibraryError("默认模板不能删除"@),
            )
            &&& !v.rows[i].is_default ==> {
                &&& r is Ok
                &&& after.rows.len() == v.rows.len() - 1
                &&& after.rows[j] == v.rows[if j < i {
                    j
                } else {
                    j + 1
                }]
                &&& after.settings == v.settings
                &&& after.last_id == v.last_id
            }
        }),
{
    row_is_found(v, i);
}

/// An empty store is seeded with the given design and page under the name of the default
/// template; a store that holds templates is left as it is. The file is to hold the page of
/// the default template, where one is kept.
pub proof fn empty_stores_are_seeded(
    v: StoreView,
    design: Seq<char>,
    html: Seq<char>,
    save_html: bool,
    now: int,
    said: JsonView,
    message: Seq<char>,
)
    requires
        v.is_valid(),
        v.last_id < i64::MAX,
    ensures
        v.rows.len() > 0 ==> initialised(v, design, html, save_html, now) == (v, render_file(
            v,
            save_html,
        )),
        v.rows.len() == 0 && json::document(design) == Ok::<JsonView, Seq<char>>(said) ==> {
            let (after, r) = initialised(v, design, html, save_html, now);
            &&& after.rows.len() == 1
            &&& after.rows[0].name == "默认标签模板"@
            &&& after.rows[0].design_json == design
            &&& after.rows[0].render_html == html
            &&& after.rows[0].is_default
            &&& after.rows[0].updated_at == now
            &&& after.rows[0].id == v.last_id + 1
            &&& after.settings == v.settings
            &&& r == Ok::<Option<Seq<char>>, ErrorView>(
                if save_html {
                    Some(html)
                } else {
                    None
                },
            )
        },
        v.rows.len() == 0 && json::document(design) == Err::<JsonView, Seq<char>>(message)
            ==> initialised(v, design, html, save_html, now) == (v, Err::<
            Option<Seq<char>>,
            ErrorView,
        >(ErrorView::OtherLibraryError("种子模板 JSON 非法: "@ + message))),
{
    let after = initialised(v, design, html, save_html, now).0;
    if v.rows.len() == 0 && json::document(design) == Ok::<JsonView, Seq<char>>(said) {
        assert(is_only_default(after.rows, 0));
        page_of_the_default_is_kept(after, 0);
    }
}

/// The file is to hold the page of the default template, where one is kept.
pub proof fn page_of_the_default_is_kept(v: StoreView, i: int)
    ensures
        render_file(v, false) == Ok::<Option<Seq<char>>, ErrorView>(None),
        is_only_default(v.rows, i) ==> render_file(v, true) == Ok::<Option<Seq<char>>, ErrorView>(
            Some(v.rows[i].render_html),
        ),
        (forall|k: int| 0 <= k < v.rows.len() ==> !(#[trigger] v.rows[k]).is_default)
            ==> render_file(v, true) == Err::<Option<Seq<char>>, ErrorView>(
            ErrorView::DbError("Query returned no rows"@),
        ),
{
    first_index_is_first(v.rows, defaults());
    if let Some(k) = default_index(v.rows) {
        assert(defaults()(v.rows[k]));
    } else if 0 <= i < v.rows.len() {
        assert(!defaults()(v.rows[i]));
    }
}

/// The settings of a station are those that the store holds for that very station.
pub proof fn stations_have_their_settings(v: StoreView, station: Seq<char>)
    ensures
        v.settings.contains_key(station) ==> station_settings(v, station) == Some(
            v.settings[station],
        ),
        !v.settings.contains_key(station) ==> station_settings(v, station) is None,
{
}

/// A restored store holds the templates that it was given.
pub proof fn restored_stores_hold_their_rows(rows: Seq<TemplateRow>, last_id: i64, i: int)
    ensures
        restored(rows, last_id).rows.len() == rows.len(),
        0 <= i < rows.len() ==> restored(rows, last_id).rows[i] == rows[i]@,
        restored(rows, last_id).last_id == last_id,
        restored(rows, last_id).settings == Map::<Seq<char>, SettingsView>::empty(),
{
}

/// Whatever list is made of a store, each entry has the id, the name, the mark and the time of
/// one stored template, and each template stands there.
pub proof fn lists_name_the_templates(store: TemplateStore, r: Vec<TemplateSummary>, k: int, i: int)
    requires
        store.is_valid(),
        call_ensures(list, (&store,), r),
        0 <= k < r@.len(),
        0 <= i < store@.rows.len(),
    ensures
        r@.len() == store@.rows.len(),
        exists|j: int|
            0 <= j < store@.rows.len() && r@[k].id == (#[trigger] store@.rows[j]).id && r@[k].name@
                == store@.rows[j].name && r@[k].is_default == store@.rows[j].is_default
                && r@[k].updated_at == store@.rows[j].updated_at,
        exists|j: int|
            0 <= j < r@.len() && (#[trigger] r@[j]).id == store@.rows[i].id && r@[j].name@
                == store@.rows[i].name && r@[j].is_default == store@.rows[i].is_default
                && r@[j].updated_at == store@.rows[i].updated_at,
{
    assert(tells_of_one(r@[k]@, store@.rows));
    assert(is_told(entries(r@), store@.rows[i]));
}

/// A copy has another id, the name with a word behind it, the design and the page of its
/// source, and is not the default template.
pub proof fn duplicates_are_like_their_source(source: RecordView, id: int, now: int)
    ensures
        duplicate(source, id, now).id == id,
        duplicate(source, id, now).name == source.name + " 副本"@,
        duplicate(source, id, now).design_json == source.design_json,
        duplicate(source, id, now).render_html == source.render_html,
        !duplicate(source, id, now).is_default,
        duplicate(source, id, now).updated_at == now,
{
}

} // verus!
