//! Labels rendered by the browser's command line.
use vstd::prelude::*;

use crate::codec;
use crate::codec::qr_code_data_uri;
use crate::context;
use crate::context::{fields_of_label, segments_of, set_qr_code, set_segments};
use crate::err::{CustomError, ErrorView, other_error};
use crate::json;
use crate::json::{Json, JsonView};
use crate::page;
use crate::page::page_with;
use crate::text;

verus! {

/// The fields that a template is rendered with, but for the QR code: every field is a
/// text, and the segments of the QR text prevail over fields of the request.
pub open spec fn text_fields(qr_string: Seq<char>, label: JsonView) -> Result<
    Map<Seq<char>, JsonView>,
    ErrorView,
> {
    if context::segments(qr_string).len() < 7 {
        Err(context::too_few_segments(qr_string))
    } else {
        Ok(context::with_segments(context::label_fields(label, true), context::segments(qr_string)))
    }
}

/// The fields that a template is rendered with, but for the QR code.
pub fn build_template_context(qr_string: &str, label: &Json) -> (r: Result<
    serde_json::Map<std::string::String, serde_json::Value>,
    CustomError,
>)
    ensures
        context::fields_result(r) == text_fields(qr_string@, label@),
{
    match segments_of(qr_string) {
        Err(e) => Err(e),
        Ok(parts) => {
            let mut fields = fields_of_label(label, true);
            set_segments(&mut fields, &parts);
            Ok(fields)
        },
    }
}

/// The fields that a template is rendered with.
pub open spec fn template_fields(label: JsonView) -> Result<Map<Seq<char>, JsonView>, ErrorView> {
    match json::text_field(label, "qr_string"@) {
        None => Err(ErrorView::OtherLibraryError("missing qr_string"@)),
        Some(qr_string) => match text_fields(qr_string, label) {
            Err(e) => Err(e),
            Ok(fields) => context::with_qr_code(fields, codec::qr_uri(qr_string)),
        },
    }
}

/// The fields that a template is rendered with.
pub fn label_context(label: &Json) -> (r: Result<
    serde_json::Map<std::string::String, serde_json::Value>,
    CustomError,
>)
    ensures
        context::fields_result(r) == template_fields(label@),
{
    match label.get_str("qr_string") {
        None => Err(other_error("missing qr_string")),
        Some(qr_string) => match build_template_context(qr_string, label) {
            Err(e) => Err(e),
            Ok(fields) => set_qr_code(fields, qr_code_data_uri(qr_string)),
        },
    }
}

/// The segments of the QR text are what the template sees of the fields that they
/// give, whatever the request says of those fields.
pub proof fn qr_segments_are_authoritative(
    label: JsonView,
    qr_string: Seq<char>,
    fields: Map<Seq<char>, JsonView>,
    i: int,
)
    requires
        json::text_field(label, "qr_string"@) == Some(qr_string),
        template_fields(label) == Ok::<Map<Seq<char>, JsonView>, ErrorView>(fields),
        0 <= i < 7,
    ensures
        fields.contains_key(context::segment_keys()[i]),
        fields[context::segment_keys()[i]] == JsonView::Text(context::segments(qr_string)[i]),
{
    context::segment_keys_are_plain(i);
    context::segments_prevail(
        context::label_fields(label, true),
        context::segments(qr_string),
        i,
    );
}

/// A template is rendered with texts.
pub proof fn fields_are_scalars(label: JsonView)
    ensures
        template_fields(label) matches Ok(fields) ==> context::are_scalars(fields),
{
    if let Some(qr_string) = json::text_field(label, "qr_string"@) {
        let plain = context::label_fields(label, true);
        let parts = context::segments(qr_string);
        let uri = codec::qr_uri(qr_string);
        context::requests_give_scalars(label, true);
        context::segments_keep_scalars(plain, parts, uri);
        context::segments_keep_scalars(context::with_segments(plain, parts), parts, uri);
    }
}

/// The page of a label.
pub fn label_page(label: &Json, template_html: &str) -> (r: Result<String, CustomError>)
    ensures
        page::is_page(r, template_fields(label@), template_html@),
{
    proof {
        fields_are_scalars(label@);
    }
    page_with(template_html, label_context(label))
}

/// The QR code of a label holds the whole text of the field `qr_string`, and a label without
/// such a text fails.
pub proof fn qr_code_holds_the_whole_text(label: JsonView, s: Seq<char>)
    ensures
        json::text_field(label, "qr_string"@) is None ==> template_fields(label) == Err::<
            Map<Seq<char>, JsonView>,
            ErrorView,
        >(ErrorView::OtherLibraryError("missing qr_string"@)),
        json::text_field(label, "qr_string"@) == Some(s) && context::bars_in(s) < 6
            ==> template_fields(label) == Err::<Map<Seq<char>, JsonView>, ErrorView>(
            ErrorView::OtherLibraryError("qr_string 分段不足（需要 7 段）: "@ + s),
        ),
        json::text_field(label, "qr_string"@) == Some(s) && context::bars_in(s) >= 6
            ==> match codec::qr_uri(s) {
            Ok(uri) => template_fields(label) matches Ok(fields) && context::holds_text(
                fields,
                "qr_code"@,
                uri,
            ),
            Err(e) => template_fields(label) == Err::<Map<Seq<char>, JsonView>, ErrorView>(e),
        },
{
    context::segments_are_one_more_than_bars(s);
}

/// The seven texts that the QR text joins with bars are what the page shows as material,
/// lot, order, count, vendor, date and box.
pub proof fn qr_text_gives_the_segments(
    label: JsonView,
    fields: Map<Seq<char>, JsonView>,
    parts: Seq<Seq<char>>,
)
    requires
        template_fields(label) == Ok::<Map<Seq<char>, JsonView>, ErrorView>(fields),
        json::text_field(label, "qr_string"@) == Some(text::rejoined(parts, seq!['|'])),
        parts.len() >= 7,
        forall|i: int| 0 <= i < parts.len() ==> text::lacks(#[trigger] parts[i], '|'),
    ensures
        context::holds_text(fields, "material_no"@, parts[0]),
        context::holds_text(fields, "lot_no"@, parts[1]),
        context::holds_text(fields, "order_no"@, parts[2]),
        context::holds_text(fields, "count"@, parts[3]),
        context::holds_text(fields, "vender_code"@, parts[4]),
        context::holds_text(fields, "date"@, parts[5]),
        context::holds_text(fields, "box_no"@, parts[6]),
{
    let s = text::rejoined(parts, seq!['|']);
    text::splitting_undoes_joining(parts, '|');
    let keys = context::segment_keys();
    assert forall|i: int| 0 <= i < 7 implies context::holds_text(
        fields,
        #[trigger] keys[i],
        parts[i],
    ) by {
        qr_segments_are_authoritative(label, s, fields, i);
    }
    assert(keys[0] == "material_no"@ && keys[1] == "lot_no"@ && keys[2] == "order_no"@);
    assert(keys[3] == "count"@ && keys[4] == "vender_code"@ && keys[5] == "date"@);
    assert(keys[6] == "box_no"@);
}

/// A field of the request is shown as the text that it is written with: a text as it is, a
/// number by its digits, and a flag as `true` or `false`.
pub proof fn request_fields_are_shown_as_texts(
    m: Map<Seq<char>, JsonView>,
    fields: Map<Seq<char>, JsonView>,
    key: Seq<char>,
)
    requires
        template_fields(JsonView::Object(m)) == Ok::<Map<Seq<char>, JsonView>, ErrorView>(fields),
        m.contains_key(key),
        context::is_no_segment(key),
    ensures
        match m[key] {
            JsonView::Text(s) => context::holds_text(fields, key, s),
            JsonView::Number(s) => context::holds_text(fields, key, s),
            JsonView::Bool(true) => context::holds_text(fields, key, "true"@),
            JsonView::Bool(false) => context::holds_text(fields, key, "false"@),
            _ => !fields.contains_key(key),
        },
{
    let label = JsonView::Object(m);
    context::request_fields_keep_their_values(m, key);
    if let Some(s) = json::text_field(label, "qr_string"@) {
        context::no_segment_is_apart(
            context::label_fields(label, true),
            context::segments(s),
            key,
        );
    }
}

/// Whatever fields are made of a label, its texts stand there as they are, its numbers by
/// their digits, and its flags as `true` and `false`, apart from what the QR text gives.
pub proof fn built_fields_are_texts(
    qr_string: &str,
    label: Json,
    m: Map<Seq<char>, JsonView>,
    r: Result<serde_json::Map<std::string::String, serde_json::Value>, CustomError>,
    key: Seq<char>,
)
    requires
        call_ensures(build_template_context, (qr_string, &label), r),
        label@ == JsonView::Object(m),
        m.contains_key(key),
        context::is_no_segment(key),
    ensures
        r is Ok <==> context::bars_in(qr_string@) >= 6,
        r matches Ok(made) ==> {
            let fields = json::fields_of(made);
            match m[key] {
                JsonView::Text(s) => context::holds_text(fields, key, s),
                JsonView::Number(s) => context::holds_text(fields, key, s),
                JsonView::Bool(true) => context::holds_text(fields, key, "true"@),
                JsonView::Bool(false) => context::holds_text(fields, key, "false"@),
                _ => !fields.contains_key(key),
            }
        },
{
    context::segments_are_one_more_than_bars(qr_string@);
    context::request_fields_keep_their_values(m, key);
    context::no_segment_is_apart(
        context::label_fields(label@, true),
        context::segments(qr_string@),
        key,
    );
}

} // verus!
