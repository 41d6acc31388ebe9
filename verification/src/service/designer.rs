//! The requests that manage templates.
use vstd::prelude::*;

use crate::assets;
use crate::assets::is_safe_asset_name;
use crate::decimal;
use crate::decimal::parse_i64_str;
use crate::err::{CustomError, ErrorView, other_error_with};
use crate::json::{Json, JsonView};
use crate::service::template_store;
use crate::service::template_store::{
    StoreView, TemplateRecord, TemplateStore, get, set_default, sync_render_file, update,
    write_render_file,
};
use crate::text;
use crate::text::same_str;

verus! {

/// A request to make a template.
pub struct CreateTemplateRequest {
    pub name: String,
}

/// A request to change a template; what is absent stays.
pub struct UpdateTemplateRequest {
    pub name: Option<String>,
    /// The design.
    pub json: Option<Json>,
    /// The page.
    pub html: Option<String>,
}

/// The template that a request names: `default` or a number.
pub open spec fn named_id(raw: Seq<char>) -> Result<Option<int>, ErrorView> {
    if raw == "default"@ {
        Ok(None)
    } else {
        match decimal::parsed(raw, i64::MIN as int, i64::MAX as int) {
            Some(id) => Ok(Some(id)),
            None => Err(ErrorView::OtherLibraryError("invalid template id: "@ + raw)),
        }
    }
}

/// What the outcome of reading the name of a template says.
pub open spec fn id_result(r: Result<Option<i64>, CustomError>) -> Result<Option<int>, ErrorView> {
    match r {
        Ok(Some(id)) => Ok(Some(id as int)),
        Ok(None) => Ok(None),
        Err(e) => Err(e@),
    }
}

/// The template that a request names; nothing for the default template.
pub fn parse_template_id(raw: &str) -> (r: Result<Option<i64>, CustomError>)
    ensures
        id_result(r) == named_id(raw@),
{
    if same_str(raw, "default") {
        return Ok(None);
    }
    match parse_i64_str(raw) {
        Some(id) => Ok(Some(id)),
        None => Err(other_error_with("invalid template id: ", raw)),
    }
}

/// The name of a static file; an error where it may not stand for one.
pub fn asset_name(filename: &str) -> (r: Result<(), CustomError>)
    ensures
        match r {
            Ok(()) => assets::is_safe(filename@),
            Err(e) => !assets::is_safe(filename@) && e@ == ErrorView::OtherLibraryError(
                "invalid asset name: "@ + filename@,
            ),
        },
{
    if is_safe_asset_name(filename) {
        Ok(())
    } else {
        Err(other_error_with("invalid asset name: ", filename))
    }
}

/// The template that a request reads.
pub fn get_template(store: &TemplateStore, raw: &str) -> (r: Result<TemplateRecord, CustomError>)
    ensures
        template_store::record_result(r) == (match named_id(raw@) {
            Err(e) => Err(e),
            Ok(Some(id)) => template_store::record(store@, id),
            Ok(None) => template_store::chosen(store@, None),
        }),
{
    match parse_template_id(raw) {
        Err(e) => Err(e),
        Ok(id) => get(store, id),
    }
}

/// The id of the template that a request changes: that of the default template where
/// it names that one.
pub open spec fn target_id(v: StoreView, raw: Seq<char>) -> Result<int, ErrorView> {
    match named_id(raw) {
        Err(e) => Err(e),
        Ok(Some(id)) => Ok(id),
        Ok(None) => match template_store::chosen(v, None) {
            Ok(record) => Ok(record.id),
            Err(e) => Err(e),
        },
    }
}

/// A request that changes a template: the store after it, and what the file with the
/// page is to hold, where it is to be written.
pub open spec fn template_updated(
    v: StoreView,
    raw: Seq<char>,
    name: Option<Seq<char>>,
    design: Option<JsonView>,
    html: Option<Seq<char>>,
    save_html: bool,
    now: int,
) -> (StoreView, Result<Option<Seq<char>>, ErrorView>) {
    match target_id(v, raw) {
        Err(e) => (v, Err(e)),
        Ok(id) => {
            let (after, r) = template_store::updated(v, id, name, design, html, now);
            match r {
                Err(e) => (after, Err(e)),
                Ok(()) => (
                    after,
                    Ok(
                        if save_html {
                            html
                        } else {
                            None
                        },
                    ),
                ),
            }
        },
    }
}

/// What a JSON value that may be absent says.
pub open spec fn json_option(j: Option<Json>) -> Option<JsonView> {
    match j {
        Some(j) => Some(j@),
        None => None,
    }
}

/// Changes a template, and gives what the file with the page is to hold, where it is
/// to be written.
pub fn update_template(
    store: &mut TemplateStore,
    raw: &str,
    request: &UpdateTemplateRequest,
    save_html: bool,
    now: i64,
) -> (r: Result<Option<String>, CustomError>)
    requires
        old(store).is_valid(),
    ensures
        final(store).is_valid(),
        (final(store)@, template_store::file_result(r)) == template_updated(
            old(store)@,
            raw@,
            text::text_option(request.name),
            json_option(request.json),
            text::text_option(request.html),
            save_html,
            now as int,
        ),
        r is Ok ==> (target_id(old(store)@, raw@) matches Ok(id) && template_store::reads_as_saved(
            old(store)@,
            final(store)@,
            id,
            text::text_option(request.name),
            json_option(request.json),
            text::text_option(request.html),
            now as int,
        )),
{
    let id: i64 = match parse_template_id(raw) {
        Err(e) => {
            return Err(e);
        },
        Ok(Some(id)) => id,
        Ok(None) => match get(store, None) {
            Err(e) => {
                return Err(e);
            },
            Ok(record) => record.id,
        },
    };
    let name: Option<&str> = match &request.name {
        Some(name) => Some(name.as_str()),
        None => None,
    };
    let json: Option<&Json> = match &request.json {
        Some(json) => Some(json),
        None => None,
    };
    let html: Option<&str> = match &request.html {
        Some(html) => Some(html.as_str()),
        None => None,
    };
    match update(store, id, name, json, html, now) {
        Err(e) => Err(e),
        Ok(()) => match html {
            Some(html) => Ok(write_render_file(html, save_html)),
            None => Ok(None),
        },
    }
}

/// A request that makes a template the default template.
pub open spec fn template_made_default(v: StoreView, id: int, save_html: bool, now: int) -> (
    StoreView,
    Result<Option<Seq<char>>, ErrorView>,
) {
    let (after, r) = template_store::default_set(v, id, now);
    match r {
        Err(e) => (after, Err(e)),
        Ok(()) => (after, template_store::render_file(after, save_html)),
    }
}

/// Makes a template the default template, and gives what the file with its page is to
/// hold, where it is to be written.
pub fn set_default_template(store: &mut TemplateStore, id: i64, save_html: bool, now: i64) -> (r:
    Result<Option<String>, CustomError>)
    requires
        old(store).is_valid(),
    ensures
        final(store).is_valid(),
        (final(store)@, template_store::file_result(r)) == template_made_default(
            old(store)@,
            id as int,
            save_html,
            now as int,
        ),
{
    match set_default(store, id, now) {
        Err(e) => Err(e),
        Ok(()) => sync_render_file(store, save_html),
    }
}

/// A request names the default template by `default` and every other one by its number;
/// anything else is refused.
pub proof fn requests_name_templates(id: int, raw: Seq<char>)
    requires
        i64::MIN <= id <= i64::MAX,
    ensures
        named_id("default"@) == Ok::<Option<int>, ErrorView>(None),
        named_id(decimal::decimal(id)) == Ok::<Option<int>, ErrorView>(Some(id)),
        raw != "default"@ && decimal::parsed(raw, i64::MIN as int, i64::MAX as int) is None
            ==> named_id(raw) == Err::<Option<int>, ErrorView>(
            ErrorView::OtherLibraryError("invalid template id: "@ + raw),
        ),
{
    decimal::decimal_is_digits(id);
    decimal::decimal_reads_back(id, i64::MIN as int, i64::MAX as int);
    reveal_strlit("default");
    if decimal::decimal(id) == "default"@ {
        assert(decimal::decimal(id)[0] == 'd');
    }
}

/// A change goes to the template that the request names: the one with that number, or the
/// default template.
pub proof fn changes_go_to_the_named_template(
    v: StoreView,
    id: int,
    i: int,
    design: JsonView,
)
    requires
        v.is_valid(),
        i64::MIN <= id <= i64::MAX,
    ensures
        target_id(v, decimal::decimal(id)) == Ok::<int, ErrorView>(id),
        template_store::is_only_default(v.rows, i) && crate::json::document(v.rows[i].design_json)
            == Ok::<JsonView, Seq<char>>(design) ==> target_id(v, "default"@) == Ok::<
            int,
            ErrorView,
        >(v.rows[i].id),
{
    requests_name_templates(id, seq![]);
    template_store::default_template_is_read(v, i, 0);
    if template_store::is_only_default(v.rows, i) {
        template_store::templates_read_as_stored(v, i, design, seq![]);
    }
}

/// A change stores what `updated` stores in that template, and its page, where one is given,
/// is what the file is to hold, where one is kept.
pub proof fn changed_pages_go_to_the_file(
    v: StoreView,
    id: int,
    name: Option<Seq<char>>,
    design: Option<JsonView>,
    html: Option<Seq<char>>,
    now: int,
    e: ErrorView,
)
    requires
        i64::MIN <= id <= i64::MAX,
    ensures
        ({
            let raw = decimal::decimal(id);
            let (after, r) = template_store::updated(v, id, name, design, html, now);
            &&& r is Ok ==> template_updated(v, raw, name, design, html, true, now) == (
                after,
                Ok::<Option<Seq<char>>, ErrorView>(html),
            )
            &&& r is Ok ==> template_updated(v, raw, name, design, html, false, now) == (
                after,
                Ok::<Option<Seq<char>>, ErrorView>(None),
            )
            &&& r == Err::<(), ErrorView>(e) ==> template_updated(
                v,
                raw,
                name,
                design,
                html,
                true,
                now,
            ) == (after, Err::<Option<Seq<char>>, ErrorView>(e))
        }),
{
    requests_name_templates(id, seq![]);
}

/// A template that is made the default template has its page written to the file, where one
/// is kept.
pub proof fn default_pages_go_to_the_file(v: StoreView, i: int, now: int, design: JsonView)
    requires
        v.is_valid(),
        0 <= i < v.rows.len(),
        crate::json::document(v.rows[i].design_json) == Ok::<JsonView, Seq<char>>(design),
    ensures
        ({
            let (kept, r) = template_made_default(v, v.rows[i].id, true, now);
            let (plain, none) = template_made_default(v, v.rows[i].id, false, now);
            &&& r == Ok::<Option<Seq<char>>, ErrorView>(Some(v.rows[i].render_html))
            &&& none == Ok::<Option<Seq<char>>, ErrorView>(None)
            &&& kept == plain
            &&& template_store::is_only_default(kept.rows, i)
        }),
{
    template_store::row_is_found(v, i);
    template_store::templates_read_as_stored(v, i, design, seq![]);
    template_store::default_moves(v, v.rows[i].id, now);
}

/// What a request and an outcome hold is what they say.
pub proof fn outcomes_say_what_they_hold(id: i64, e: CustomError, j: Json)
    ensures
        id_result(Ok(Some(id))) == Ok::<Option<int>, ErrorView>(Some(id as int)),
        id_result(Ok(None)) == Ok::<Option<int>, ErrorView>(None),
        id_result(Err(e)) == Err::<Option<int>, ErrorView>(e@),
        json_option(Some(j)) == Some(j@),
        json_option(None) is None,
{
}

} // verus!
