//! Labels rendered for the service: the fields, the page, and what is printed.
use vstd::prelude::*;

use crate::codec;
use crate::codec::qr_code_data_uri;
use crate::context;
use crate::context::{
    apply_image_variables, apply_split_variables, fields_of_label, fill_missing_variables,
    segments_of, set_qr_code, set_segments,
};
use crate::err::{CustomError, ErrorView};
use crate::json;
use crate::json::{Json, JsonView};
use crate::label_run;
use crate::label_run::{Action, LabelRun};
use crate::page;
use crate::page::{check_template, page_with};
use crate::text;

verus! {

/// The query of a request for labels.
pub struct LabelQuery {
    /// The template, by id or by name; the default template where absent.
    pub template: Option<String>,
    /// `false` keeps the labels from being printed.
    pub print: Option<bool>,
}

/// Labels are printed where printing is on and the request does not say otherwise.
pub fn should_print(config_enabled: bool, query: &LabelQuery) -> (r: bool)
    ensures
        r == (config_enabled && query.print != Some(false)),
{
    config_enabled && match query.print {
        Some(print) => print,
        None => true,
    }
}

/// The QR text of a request; empty where there is none.
pub open spec fn qr_text(label: JsonView) -> Seq<char> {
    match json::text_field(label, "qr_string"@) {
        Some(s) => s,
        None => seq![],
    }
}

/// The fields of a request before the placeholders of a template are looked at.
pub open spec fn base_fields(label: JsonView) -> Map<Seq<char>, JsonView> {
    if qr_text(label).len() == 0 {
        context::label_fields(label, false)
    } else {
        context::with_segments(
            context::label_fields(label, false),
            context::segments(qr_text(label)),
        )
    }
}

/// The fields of a request, with what the placeholders of a template ask for.
pub open spec fn prepared_fields(label: JsonView, template: Seq<char>) -> Map<Seq<char>, JsonView> {
    context::filled_fields(
        context::image_fields(context::split_fields(base_fields(label), template), template),
        template,
    )
}

/// The data URI of the QR code of a request; empty where it has no QR text.
pub open spec fn qr_code_of(label: JsonView) -> Result<Seq<char>, ErrorView> {
    if qr_text(label).len() == 0 {
        Ok(seq![])
    } else {
        codec::qr_uri(qr_text(label))
    }
}

/// The fields that a template is rendered with, or why there are none: a QR text that
/// has too few segments, or that no QR code can hold.
pub open spec fn template_fields(label: JsonView, template: Seq<char>) -> Result<
    Map<Seq<char>, JsonView>,
    ErrorView,
> {
    if qr_text(label).len() > 0 && context::segments(qr_text(label)).len() < 7 {
        Err(context::too_few_segments(qr_text(label)))
    } else {
        context::with_qr_code(prepared_fields(label, template), qr_code_of(label))
    }
}

/// The fields that a template is rendered with. The QR text is optional; where there
/// is one, its segments prevail over fields of the request.
pub fn build_template_context(label: &Json, template_html: &str) -> (r: Result<
    serde_json::Map<std::string::String, serde_json::Value>,
    CustomError,
>)
    ensures
        context::fields_result(r) == template_fields(label@, template_html@),
{
    let qr_string: &str = match label.get_str("qr_string") {
        Some(s) => s,
        None => "",
    };
    proof {
        reveal_strlit("");
        assert(""@ =~= seq![]);
    }
    let mut fields = fields_of_label(label, false);
    let has_qr_text = crate::text::chars_of(qr_string).len() > 0;
    if has_qr_text {
        match segments_of(qr_string) {
            Ok(parts) => set_segments(&mut fields, &parts),
            Err(e) => {
                return Err(e);
            },
        }
    }
    apply_split_variables(&mut fields, template_html);
    apply_image_variables(&mut fields, template_html);
    fill_missing_variables(&mut fields, template_html);
    let uri = if has_qr_text {
        qr_code_data_uri(qr_string)
    } else {
        let blank = String::new();
        assert(blank@ =~= seq![]);
        Ok(blank)
    };
    set_qr_code(fields, uri)
}

/// A template is rendered with texts, numbers and flags.
pub proof fn fields_are_scalars(label: JsonView, template: Seq<char>)
    ensures
        template_fields(label, template) matches Ok(fields) ==> context::are_scalars(fields),
{
    let plain = context::label_fields(label, false);
    context::requests_give_scalars(label, false);
    context::segments_keep_scalars(plain, context::segments(qr_text(label)), qr_code_of(label));
    let base = base_fields(label);
    context::passes_keep_scalars(base, template);
    let split = context::split_fields(base, template);
    context::passes_keep_scalars(split, template);
    context::passes_keep_scalars(context::image_fields(split, template), template);
    context::segments_keep_scalars(prepared_fields(label, template), seq![], qr_code_of(label));
}

/// The page of a label.
pub fn label_page(label: &Json, template_html: &str) -> (r: Result<String, CustomError>)
    ensures
        page::is_page(r, template_fields(label@, template_html@), template_html@),
{
    proof {
        fields_are_scalars(label@, template_html@);
    }
    page_with(template_html, build_template_context(label, template_html))
}

/// Starts a request for labels: a template that is not well formed fails it at once.
pub fn start_request(template_html: &str, labels: usize, print: bool) -> (r: Result<
    (LabelRun, Action),
    CustomError,
>)
    ensures
        match r {
            Ok((run, action)) => page::well_formed(template_html@) && (run@, action@)
                == label_run::started(labels as int, print) && run@.is_valid(),
            Err(e) => !page::well_formed(template_html@) && e@ is TeraError,
        },
{
    match check_template(template_html) {
        Ok(()) => Ok(LabelRun::start(labels, print)),
        Err(e) => Err(e),
    }
}

/// Where a request has a QR text, its segments are what the template sees of the
/// fields that they give, whatever the request says of those fields and whatever the
/// template asks for.
pub proof fn qr_segments_are_authoritative(
    label: JsonView,
    template: Seq<char>,
    fields: Map<Seq<char>, JsonView>,
    i: int,
)
    requires
        template_fields(label, template) == Ok::<Map<Seq<char>, JsonView>, ErrorView>(fields),
        qr_text(label).len() > 0,
        0 <= i < 7,
    ensures
        fields.contains_key(context::segment_keys()[i]),
        fields[context::segment_keys()[i]] == JsonView::Text(context::segments(qr_text(label))[i]),
{
    let key = context::segment_keys()[i];
    context::segment_keys_are_plain(i);
    context::segments_prevail(
        context::label_fields(label, false),
        context::segments(qr_text(label)),
        i,
    );
    placeholders_keep_fields(label, template, key);
}

/// A field of the request that is a text, a number or a flag, and no segment, variable
/// or QR code, is what the template sees.
pub proof fn request_fields_reach_the_template(
    label: JsonView,
    template: Seq<char>,
    fields: Map<Seq<char>, JsonView>,
    key: Seq<char>,
)
    requires
        template_fields(label, template) == Ok::<Map<Seq<char>, JsonView>, ErrorView>(fields),
        json::field(label, key) is Some,
        json::is_scalar(json::field(label, key)->0),
        !context::segment_keys().contains(key),
        key != "qr_code"@,
        !context::is_marked(key, "_x_"@),
        !context::is_marked(key, context::image_mark(true)),
        !context::is_marked(key, context::image_mark(false)),
    ensures
        fields.contains_key(key),
        fields[key] == json::field(label, key)->0,
{
    context::segments_keep_fields(
        context::label_fields(label, false),
        context::segments(qr_text(label)),
        key,
    );
    placeholders_keep_fields(label, template, key);
}

/// Every placeholder of a template that is an identifier and no split variable has a
/// field, so no missing field of the request fails the page.
pub proof fn placeholders_have_fields(
    label: JsonView,
    template: Seq<char>,
    fields: Map<Seq<char>, JsonView>,
    i: int,
)
    requires
        template_fields(label, template) == Ok::<Map<Seq<char>, JsonView>, ErrorView>(fields),
        0 <= i < context::tags(template, "{{"@).len(),
        context::is_fillable(context::tags(template, "{{"@)[i]),
    ensures
        fields.contains_key(context::tags(template, "{{"@)[i]),
{
    context::filling_covers_placeholders(
        context::image_fields(context::split_fields(base_fields(label), template), template),
        template,
        i,
    );
}

proof fn placeholders_keep_fields(label: JsonView, template: Seq<char>, key: Seq<char>)
    requires
        base_fields(label).contains_key(key),
        !context::is_marked(key, "_x_"@),
        !context::is_marked(key, context::image_mark(true)),
        !context::is_marked(key, context::image_mark(false)),
    ensures
        prepared_fields(label, template).contains_key(key),
        prepared_fields(label, template)[key] == base_fields(label)[key],
{
    let split = context::split_fields(base_fields(label), template);
    context::splitting_keeps_fields(base_fields(label), template, key);
    context::drawing_keeps_fields(split, template, key);
    context::filling_keeps_fields(context::image_fields(split, template), template, key);
}

// ---------------------------------------------------------------------------
// What the page of a label shows
// ---------------------------------------------------------------------------

/// The QR code of a label holds the whole text of the field `qr_string`; a label without
/// that text has none.
pub proof fn qr_code_holds_the_whole_text(
    label: JsonView,
    template: Seq<char>,
    fields: Map<Seq<char>, JsonView>,
    s: Seq<char>,
)
    requires
        template_fields(label, template) == Ok::<Map<Seq<char>, JsonView>, ErrorView>(fields),
    ensures
        json::text_field(label, "qr_string"@) == Some(s) && s.len() > 0 ==> (codec::qr_uri(
            s,
        ) matches Ok(uri) && context::holds_text(fields, "qr_code"@, uri)),
        json::text_field(label, "qr_string"@) is None || json::text_field(label, "qr_string"@)
            == Some(Seq::<char>::empty()) ==> context::holds_text(fields, "qr_code"@, seq![]),
{
}

/// A label has fields unless its QR text has fewer than six bars or no QR code can hold it.
pub proof fn labels_fail_for_their_qr_text_only(
    label: JsonView,
    template: Seq<char>,
    s: Seq<char>,
)
    ensures
        json::text_field(label, "qr_string"@) is None ==> template_fields(label, template) is Ok,
        json::text_field(label, "qr_string"@) == Some(Seq::<char>::empty()) ==> template_fields(
            label,
            template,
        ) is Ok,
        json::text_field(label, "qr_string"@) == Some(s) && s.len() > 0 && context::bars_in(s) < 6
            ==> template_fields(label, template) == Err::<Map<Seq<char>, JsonView>, ErrorView>(
            ErrorView::OtherLibraryError("qr_string 分段不足（需要 7 段）: "@ + s),
        ),
        json::text_field(label, "qr_string"@) == Some(s) && context::bars_in(s) >= 6
            ==> match codec::qr_uri(s) {
            Ok(_) => template_fields(label, template) is Ok,
            Err(e) => template_fields(label, template) == Err::<
                Map<Seq<char>, JsonView>,
                ErrorView,
            >(e),
        },
{
    context::segments_are_one_more_than_bars(s);
    if context::bars_in(s) >= 6 {
        assert(s.len() > 0);
    }
}

/// The seven texts that the QR text joins with bars are what the page shows as material,
/// lot, order, count, vendor, date and box, whatever the request says of them.
pub proof fn qr_text_gives_the_segments(
    label: JsonView,
    template: Seq<char>,
    fields: Map<Seq<char>, JsonView>,
    parts: Seq<Seq<char>>,
)
    requires
        template_fields(label, template) == Ok::<Map<Seq<char>, JsonView>, ErrorView>(fields),
        json::text_field(label, "qr_string"@) == Some(text::rejoined(parts, seq!['|'])),
        parts.len() >= 7,
        forall|i: int| 0 <= i < parts.len() ==> text::lacks(#[trigger] parts[i], '|'),
    ensures
        context::holds_text(fields, "material_no"@, parts[0]),
        context::holds_text(fields, "lot_no"@, parts[1]),
        context::holds_text(fields, "order_no"@, parts[2]),
        context::holds_text(fields, "count"@, parts[3]),
        context::holds_text(fields, "vender_code"@, parts[4]),
        context::holds_text(fields, "date"@, parts[5]),
        context::holds_text(fields, "box_no"@, parts[6]),
{
    let s = text::rejoined(parts, seq!['|']);
    text::splitting_undoes_joining(parts, '|');
    assert(s.len() > 0) by {
        assert(parts.len() > 1);
        assert(s == parts[0] + seq!['|'] + text::rejoined(parts.skip(1), seq!['|']));
    }
    let keys = context::segment_keys();
    assert forall|i: int| 0 <= i < 7 implies context::holds_text(
        fields,
        #[trigger] keys[i],
        parts[i],
    ) by {
        qr_segments_are_authoritative(label, template, fields, i);
    }
    assert(keys[0] == "material_no"@ && keys[1] == "lot_no"@ && keys[2] == "order_no"@);
    assert(keys[3] == "count"@ && keys[4] == "vender_code"@ && keys[5] == "date"@);
    assert(keys[6] == "box_no"@);
}

/// A field of the request that is a text, a number or a flag is what the page shows, as it
/// is; a field of another kind is not shown.
pub proof fn request_fields_are_shown(
    m: Map<Seq<char>, JsonView>,
    template: Seq<char>,
    fields: Map<Seq<char>, JsonView>,
    key: Seq<char>,
)
    requires
        template_fields(JsonView::Object(m), template) == Ok::<
            Map<Seq<char>, JsonView>,
            ErrorView,
        >(fields),
        m.contains_key(key),
        m[key] is Text || m[key] is Number || m[key] is Bool,
        context::is_no_segment(key),
        context::is_no_variable(key),
    ensures
        fields.contains_key(key),
        fields[key] == m[key],
{
    let label = JsonView::Object(m);
    context::request_fields_keep_their_values(m, key);
    context::no_segment_is_apart(
        context::label_fields(label, false),
        context::segments(qr_text(label)),
        key,
    );
    placeholders_keep_fields(label, template, key);
}

/// A placeholder for the QR code or the bar code of a text that the page shows gives the
/// image element of that very code.
pub proof fn code_placeholders_show_the_codes(
    label: JsonView,
    template: Seq<char>,
    fields: Map<Seq<char>, JsonView>,
    i: int,
    field: Seq<char>,
    filter: Seq<char>,
    value: Seq<char>,
)
    requires
        template_fields(label, template) == Ok::<Map<Seq<char>, JsonView>, ErrorView>(fields),
        context::holds_text(fields, field, value),
        value.len() > 0,
        field != "qr_code"@,
    ensures
        0 <= i < context::tags(template, "{{ _qr_"@).len() && context::names_image(
            context::tags(template, "{{ _qr_"@)[i],
            field,
            filter,
        ) ==> match codec::qr_uri(value) {
            Ok(uri) => context::holds_text(
                fields,
                "_qr_"@ + field,
                "<img src=\""@ + uri
                    + "\" style=\"width:100%;height:100%;object-fit:contain\">"@,
            ),
            Err(_) => context::holds_text(fields, "_qr_"@ + field, seq![]),
        },
        0 <= i < context::tags(template, "{{ _bar_"@).len() && context::names_image(
            context::tags(template, "{{ _bar_"@)[i],
            field,
            filter,
        ) ==> match codec::barcode_uri(value) {
            Ok(uri) => context::holds_text(
                fields,
                "_bar_"@ + field,
                "<img src=\""@ + uri
                    + "\" style=\"width:100%;height:100%;object-fit:contain\">"@,
            ),
            Err(_) => context::holds_text(fields, "_bar_"@ + field, seq![]),
        },
{
    let split = context::split_fields(base_fields(label), template);
    let drawn = context::image_fields(split, template);
    reveal_strlit("qr_code");
    reveal_strlit("_qr_");
    reveal_strlit("_bar_");
    assert(("_qr_"@ + field)[0] == '_' && ("_bar_"@ + field)[0] == '_');
    if !text::occurs_at(field, "_qr_"@, 0) && !text::occurs_at(field, "_bar_"@, 0) {
        context::drawing_keeps_fields(split, template, field);
        if !drawn.contains_key(field) {
            context::filling_adds_empty_texts(drawn, template, field);
        } else {
            context::filling_keeps_fields(drawn, template, field);
        }
        if 0 <= i < context::tags(template, "{{ _qr_"@).len() && context::names_image(
            context::tags(template, "{{ _qr_"@)[i],
            field,
            filter,
        ) {
            context::qr_placeholder_shows_the_qr_code(split, template, i, field, filter, value);
            context::filling_keeps_fields(drawn, template, "_qr_"@ + field);
        }
        if 0 <= i < context::tags(template, "{{ _bar_"@).len() && context::names_image(
            context::tags(template, "{{ _bar_"@)[i],
            field,
            filter,
        ) {
            context::bar_placeholder_shows_the_bar_code(split, template, i, field, filter, value);
            context::filling_keeps_fields(drawn, template, "_bar_"@ + field);
        }
    }
}

/// A placeholder for a piece of a text that the page shows gives that very piece; one for a
/// piece that is not there gives nothing.
pub proof fn split_placeholders_show_the_pieces(
    label: JsonView,
    template: Seq<char>,
    fields: Map<Seq<char>, JsonView>,
    i: int,
    field: Seq<char>,
    separator: Seq<char>,
    index: int,
    value: Seq<char>,
)
    requires
        template_fields(label, template) == Ok::<Map<Seq<char>, JsonView>, ErrorView>(fields),
        context::holds_text(fields, field, value),
        value.len() > 0,
        field != "qr_code"@,
        context::is_no_variable(field),
        0 <= i < context::tags(template, "{{ _x_"@).len(),
        separator.len() > 0,
        0 <= index <= usize::MAX,
        context::tags(template, "{{ _x_"@)[i] == context::split_name(field, separator, index),
    ensures
        ({
            let pieces = text::split(value, separator);
            context::holds_text(
                fields,
                "_x_"@ + context::split_name(field, separator, index),
                if index < pieces.len() {
                    pieces[index]
                } else {
                    seq![]
                },
            )
        }),
{
    let base = base_fields(label);
    let split = context::split_fields(base, template);
    let drawn = context::image_fields(split, template);
    let name = "_x_"@ + context::split_name(field, separator, index);
    reveal_strlit("qr_code");
    reveal_strlit("_x_");
    reveal_strlit("_qr_");
    reveal_strlit("_bar_");
    assert(name[0] == '_' && name[1] == 'x');
    assert("qr_code"@[0] == 'q');
    context::splitting_keeps_fields(base, template, field);
    context::drawing_keeps_fields(split, template, field);
    if !drawn.contains_key(field) {
        context::filling_adds_empty_texts(drawn, template, field);
    } else {
        context::filling_keeps_fields(drawn, template, field);
    }
    context::split_placeholder_shows_the_piece(
        base,
        template,
        i,
        field,
        separator,
        index,
        value,
    );
    if text::occurs_at(name, "_qr_"@, 0) {
        assert(name.subrange(0, 4)[1] == name[1]);
    }
    if text::occurs_at(name, "_bar_"@, 0) {
        assert(name.subrange(0, 5)[1] == name[1]);
    }
    context::drawing_keeps_fields(split, template, name);
    context::filling_keeps_fields(drawn, template, name);
}

/// A placeholder that nothing gives a value is blank.
pub proof fn missing_placeholders_are_blank(
    m: Map<Seq<char>, JsonView>,
    template: Seq<char>,
    fields: Map<Seq<char>, JsonView>,
    i: int,
)
    requires
        template_fields(JsonView::Object(m), template) == Ok::<
            Map<Seq<char>, JsonView>,
            ErrorView,
        >(fields),
        0 <= i < context::tags(template, "{{"@).len(),
        context::is_plain_name(context::tags(template, "{{"@)[i]),
        context::is_no_segment(context::tags(template, "{{"@)[i]),
        context::is_no_variable(context::tags(template, "{{"@)[i]),
        !m.contains_key(context::tags(template, "{{"@)[i]),
    ensures
        context::holds_text(fields, context::tags(template, "{{"@)[i], seq![]),
{
    let label = JsonView::Object(m);
    let key = context::tags(template, "{{"@)[i];
    let base = base_fields(label);
    let split = context::split_fields(base, template);
    let drawn = context::image_fields(split, template);
    context::no_segment_is_apart(
        context::label_fields(label, false),
        context::segments(qr_text(label)),
        key,
    );
    context::splitting_keeps_fields(base, template, key);
    context::drawing_keeps_fields(split, template, key);
    context::missing_fields_are_blank(drawn, template, i, key);
}

/// Whatever fields are made of a label, their QR code holds the whole QR text, and a field of
/// the request with a code placeholder is drawn as that code.
pub proof fn built_fields_show_the_codes(
    label: Json,
    template: &str,
    r: Result<serde_json::Map<std::string::String, serde_json::Value>, CustomError>,
    s: Seq<char>,
    i: int,
    field: Seq<char>,
    filter: Seq<char>,
    value: Seq<char>,
)
    requires
        call_ensures(build_template_context, (&label, template), r),
    ensures
        r matches Ok(made) ==> {
            let fields = json::fields_of(made);
            &&& json::text_field(label@, "qr_string"@) == Some(s) && s.len() > 0 ==> match
                codec::qr_uri(s) {
                Ok(uri) => context::holds_text(fields, "qr_code"@, uri),
                Err(_) => false,
            }
            &&& json::text_field(label@, "qr_string"@) is None ==> context::holds_text(
                fields,
                "qr_code"@,
                seq![],
            )
            &&& context::holds_text(fields, field, value) && value.len() > 0 && field
                != "qr_code"@ && 0 <= i < context::tags(template@, "{{ _qr_"@).len()
                && context::names_image(context::tags(template@, "{{ _qr_"@)[i], field, filter)
                ==> match codec::qr_uri(value) {
                Ok(uri) => context::holds_text(
                    fields,
                    "_qr_"@ + field,
                    "<img src=\""@ + uri
                        + "\" style=\"width:100%;height:100%;object-fit:contain\">"@,
                ),
                Err(_) => context::holds_text(fields, "_qr_"@ + field, seq![]),
            }
        },
{
    if let Ok(made) = r {
        let fields = json::fields_of(made);
        qr_code_holds_the_whole_text(label@, template@, fields, s);
        if context::holds_text(fields, field, value) && value.len() > 0 && field != "qr_code"@ {
            code_placeholders_show_the_codes(
                label@,
                template@,
                fields,
                i,
                field,
                filter,
                value,
            );
        }
    }
}

} // verus!
