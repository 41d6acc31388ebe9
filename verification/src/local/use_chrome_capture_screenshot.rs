//! Labels rendered by a Chrome that is driven over its debugging protocol.
use vstd::prelude::*;

use crate::codec;
use crate::codec::qr_code_data_uri;
use crate::context;
use crate::context::{
    apply_split_variables, fields_of_label, fill_missing_variables, segments_of, set_qr_code,
    set_segments,
};
use crate::decimal;
use crate::decimal::unsigned_text;
use crate::err::{CustomError, ErrorView, other_error};
use crate::json;
use crate::json::{Json, JsonView};
use crate::page;
use crate::page::page_with;
use crate::text;

verus! {

/// The query of a request for labels.
pub struct LabelQuery {
    /// `false` keeps the labels from being printed.
    pub print: Option<bool>,
}

/// Labels are printed where printing is on and the request does not say otherwise.
pub fn should_print(config_enabled: bool, query: &LabelQuery) -> (r: bool)
    ensures
        r == (config_enabled && query.print != Some(false)),
{
    config_enabled && match query.print {
        Some(print) => print,
        None => true,
    }
}

/// The fields of a request, with what the placeholders of a template ask for.
pub open spec fn prepared_fields(
    label: JsonView,
    qr_string: Seq<char>,
    template: Seq<char>,
) -> Map<Seq<char>, JsonView> {
    context::filled_fields(
        context::split_fields(
            context::with_segments(
                context::label_fields(label, false),
                context::segments(qr_string),
            ),
            template,
        ),
        template,
    )
}

/// The fields that a template is rendered with, or why there are none: no QR text, or
/// one that has too few segments or that no QR code can hold.
pub open spec fn template_fields(label: JsonView, template: Seq<char>) -> Result<
    Map<Seq<char>, JsonView>,
    ErrorView,
> {
    match json::text_field(label, "qr_string"@) {
        None => Err(ErrorView::OtherLibraryError("missing qr_string"@)),
        Some(qr_string) => if context::segments(qr_string).len() < 7 {
            Err(context::too_few_segments(qr_string))
        } else {
            context::with_qr_code(
                prepared_fields(label, qr_string, template),
                codec::qr_uri(qr_string),
            )
        },
    }
}

/// The fields that a template is rendered with. The segments of the QR text prevail
/// over fields of the request.
pub fn build_template_context(label: &Json, template_html: &str) -> (r: Result<
    serde_json::Map<std::string::String, serde_json::Value>,
    CustomError,
>)
    ensures
        context::fields_result(r) == template_fields(label@, template_html@),
{
    match label.get_str("qr_string") {
        None => Err(other_error("missing qr_string")),
        Some(qr_string) => match segments_of(qr_string) {
            Err(e) => Err(e),
            Ok(parts) => {
                let mut fields = fields_of_label(label, false);
                set_segments(&mut fields, &parts);
                apply_split_variables(&mut fields, template_html);
                fill_missing_variables(&mut fields, template_html);
                set_qr_code(fields, qr_code_data_uri(qr_string))
            },
        },
    }
}

/// The segments of the QR text are what the template sees of the fields that they
/// give, whatever the request says of those fields and whatever the template asks for.
pub proof fn qr_segments_are_authoritative(
    label: JsonView,
    template: Seq<char>,
    qr_string: Seq<char>,
    fields: Map<Seq<char>, JsonView>,
    i: int,
)
    requires
        json::text_field(label, "qr_string"@) == Some(qr_string),
        template_fields(label, template) == Ok::<Map<Seq<char>, JsonView>, ErrorView>(fields),
        0 <= i < 7,
    ensures
        fields.contains_key(context::segment_keys()[i]),
        fields[context::segment_keys()[i]] == JsonView::Text(context::segments(qr_string)[i]),
{
    let key = context::segment_keys()[i];
    let base = context::with_segments(
        context::label_fields(label, false),
        context::segments(qr_string),
    );
    context::segment_keys_are_plain(i);
    context::segments_prevail(
        context::label_fields(label, false),
        context::segments(qr_string),
        i,
    );
    context::splitting_keeps_fields(base, template, key);
    context::filling_keeps_fields(context::split_fields(base, template), template, key);
}

/// Every placeholder of a template that is an identifier and no split variable has a
/// field, so no missing field of the request fails the page.
pub proof fn placeholders_have_fields(
    label: JsonView,
    template: Seq<char>,
    qr_string: Seq<char>,
    fields: Map<Seq<char>, JsonView>,
    i: int,
)
    requires
        json::text_field(label, "qr_string"@) == Some(qr_string),
        template_fields(label, template) == Ok::<Map<Seq<char>, JsonView>, ErrorView>(fields),
        0 <= i < context::tags(template, "{{"@).len(),
        context::is_fillable(context::tags(template, "{{"@)[i]),
    ensures
        fields.contains_key(context::tags(template, "{{"@)[i]),
{
    context::filling_covers_placeholders(
        context::split_fields(
            context::with_segments(
                context::label_fields(label, false),
                context::segments(qr_string),
            ),
            template,
        ),
        template,
        i,
    );
}

/// A template is rendered with texts, numbers and flags.
pub proof fn fields_are_scalars(label: JsonView, template: Seq<char>)
    ensures
        template_fields(label, template) matches Ok(fields) ==> context::are_scalars(fields),
{
    if let Some(qr_string) = json::text_field(label, "qr_string"@) {
        let plain = context::label_fields(label, false);
        let parts = context::segments(qr_string);
        let uri = codec::qr_uri(qr_string);
        context::requests_give_scalars(label, false);
        context::segments_keep_scalars(plain, parts, uri);
        let base = context::with_segments(plain, parts);
        context::passes_keep_scalars(base, template);
        context::passes_keep_scalars(context::split_fields(base, template), template);
        context::segments_keep_scalars(prepared_fields(label, qr_string, template), parts, uri);
    }
}

/// The page of a label: `template` is rendered with the fields that the placeholders
/// of `template_html` ask for.
pub fn label_page(label: &Json, template_html: &str, template: &str) -> (r: Result<
    String,
    CustomError,
>)
    ensures
        page::is_page(r, template_fields(label@, template_html@), template@),
{
    proof {
        fields_are_scalars(label@, template_html@);
    }
    page_with(template, build_template_context(label, template_html))
}

// ---------------------------------------------------------------------------
// The browser
// ---------------------------------------------------------------------------

/// The size of the browser's window.
pub const BROWSER_WINDOW_WIDTH: u32 = 800;

pub const BROWSER_WINDOW_HEIGHT: u32 = 500;

/// The arguments that the browser is started with.
pub open spec fn browser_options() -> Seq<Seq<char>> {
    seq![
        "--disable-gpu"@,
        "--force-device-scale-factor=1"@,
        "--disable-background-timer-throttling"@,
        "--disable-renderer-backgrounding"@,
        "--disable-backgrounding-occluded-windows"@,
    ]
}

/// The arguments that the browser is started with.
pub fn browser_arguments() -> (r: Vec<String>)
    ensures
        text::texts(r@) == browser_options(),
{
    let r: Vec<String> = vec![
        "--disable-gpu".to_owned(),
        "--force-device-scale-factor=1".to_owned(),
        "--disable-background-timer-throttling".to_owned(),
        "--disable-renderer-backgrounding".to_owned(),
        "--disable-backgrounding-occluded-windows".to_owned(),
    ];
    assert(text::texts(r@) =~= browser_options());
    r
}

/// The name of the directory that the browser keeps its data in. Each process has its
/// own, so that a browser that was left behind does not lock it.
pub fn user_data_name(process_id: u32) -> (r: String)
    ensures
        r@ == "qr-service-chrome-"@ + decimal::decimal(process_id as int),
{
    let mut r = "qr-service-chrome-".to_owned();
    r.append(unsigned_text(process_id as u128).as_str());
    r
}

// ---------------------------------------------------------------------------
// Taking the picture
// ---------------------------------------------------------------------------

/// What is to be done to take the picture of a label.
pub enum CaptureStep {
    /// Open a page in the browser.
    OpenPage,
    /// Take the picture on the page that is open.
    Capture,
    /// Answer with the picture.
    Answer(Vec<u8>),
    /// Answer with the error.
    Fail(CustomError),
}

/// How far the picture of a label has come. A page on which a picture could not be
/// taken is given up, and another one is tried once.
pub struct CaptureRun {
    /// Which attempt this is, from 0 on.
    pub attempt: u8,
    /// A page is open.
    pub page_open: bool,
}

/// What is to be done first.
pub fn capture_start(page_open: bool) -> (r: (CaptureRun, CaptureStep))
    ensures
        r.0.attempt == 0,
        r.0.page_open == page_open,
        if page_open {
            r.1 is Capture
        } else {
            r.1 is OpenPage
        },
{
    let run = CaptureRun { attempt: 0, page_open };
    let step = if page_open {
        CaptureStep::Capture
    } else {
        CaptureStep::OpenPage
    };
    (run, step)
}

/// What is to be done once a page was opened, or could not be.
pub fn page_opened(run: &mut CaptureRun, outcome: Result<(), String>) -> (r: CaptureStep)
    requires
        !old(run).page_open,
    ensures
        final(run).attempt == old(run).attempt,
        match outcome {
            Ok(()) => final(run).page_open && r is Capture,
            Err(message) => !final(run).page_open && (r matches CaptureStep::Fail(e) && e@
                == ErrorView::AnyhowError(message@)),
        },
{
    match outcome {
        Ok(()) => {
            run.page_open = true;
            CaptureStep::Capture
        },
        Err(message) => CaptureStep::Fail(CustomError::AnyhowError(message)),
    }
}

/// What is to be done once a picture was taken, or could not be: after the first
/// failure the page is given up and another one is opened, after the second one the
/// error is the answer.
pub fn picture_taken(run: &mut CaptureRun, outcome: Result<Vec<u8>, String>) -> (r: CaptureStep)
    requires
        old(run).page_open,
        old(run).attempt <= 1,
    ensures
        final(run).attempt <= 1,
        match outcome {
            Ok(image) => r == CaptureStep::Answer(image) && *final(run) == *old(run),
            Err(message) => if old(run).attempt == 0 {
                r is OpenPage && final(run).attempt == 1 && !final(run).page_open
            } else {
                (r matches CaptureStep::Fail(e) && e@ == ErrorView::AnyhowError(message@))
                    && *final(run) == *old(run)
            },
        },
{
    match outcome {
        Ok(image) => CaptureStep::Answer(image),
        Err(message) => {
            if run.attempt == 0 {
                run.attempt = 1;
                run.page_open = false;
                CaptureStep::OpenPage
            } else {
                CaptureStep::Fail(CustomError::AnyhowError(message))
            }
        },
    }
}

/// The script that waits until a label is painted and gives the rectangle that it
/// takes: its left and top edges, its width and its height.
pub const LABEL_READY_SCRIPT: &'static str = r##"
        new Promise((resolve) => {
            let done = false;
            const fallback = setTimeout(() => finish(), 500);

            const ready = () => {
                const app = document.querySelector("#app") || document.querySelector("table");
                if (!app) {
                    return false;
                }

                const rect = app.getBoundingClientRect();
                const imagesReady = Array.from(document.images).every((img) => img.complete);
                return document.readyState === "complete"
                    && imagesReady
                    && rect.width > 0
                    && rect.height > 0;
            };

            const finish = () => {
                if (done) {
                    return;
                }
                done = true;
                clearTimeout(fallback);
                requestAnimationFrame(() => {
                    const app = document.querySelector("#app") || document.querySelector("table");
                    if (!app) {
                        resolve("0,0,1,1");
                        return;
                    }
                    const rect = app.getBoundingClientRect();
                    resolve(`${rect.left},${rect.top},${rect.width},${rect.height}`);
                });
            };

            if (ready()) {
                finish();
                return;
            }

            const timer = setInterval(() => {
                if (ready()) {
                    clearInterval(timer);
                    finish();
                }
            }, 10);
        })
    "##;

/// The script that waits until a label is painted.
pub fn label_ready_script() -> (r: &'static str)
    ensures
        r@ == LABEL_READY_SCRIPT@,
{
    LABEL_READY_SCRIPT
}

// ---------------------------------------------------------------------------
// What the page of a label shows
// ---------------------------------------------------------------------------

/// The QR code of a label holds the whole text of the field `qr_string`, and a label without
/// such a text fails.
pub proof fn qr_code_holds_the_whole_text(label: JsonView, template: Seq<char>, s: Seq<char>)
    ensures
        json::text_field(label, "qr_string"@) is None ==> template_fields(label, template)
            == Err::<Map<Seq<char>, JsonView>, ErrorView>(
            ErrorView::OtherLibraryError("missing qr_string"@),
        ),
        json::text_field(label, "qr_string"@) == Some(s) && context::bars_in(s) < 6
            ==> template_fields(label, template) == Err::<Map<Seq<char>, JsonView>, ErrorView>(
            ErrorView::OtherLibraryError("qr_string 分段不足（需要 7 段）: "@ + s),
        ),
        json::text_field(label, "qr_string"@) == Some(s) && context::bars_in(s) >= 6
            ==> match codec::qr_uri(s) {
            Ok(uri) => template_fields(label, template) matches Ok(fields) && context::holds_text(
                fields,
                "qr_code"@,
                uri,
            ),
            Err(e) => template_fields(label, template) == Err::<
                Map<Seq<char>, JsonView>,
                ErrorView,
            >(e),
        },
{
    context::segments_are_one_more_than_bars(s);
}

/// The seven texts that the QR text joins with bars are what the page shows as material,
/// lot, order, count, vendor, date and box.
pub proof fn qr_text_gives_the_segments(
    label: JsonView,
    template: Seq<char>,
    fields: Map<Seq<char>, JsonView>,
    parts: Seq<Seq<char>>,
)
    requires
        template_fields(label, template) == Ok::<Map<Seq<char>, JsonView>, ErrorView>(fields),
        json::text_field(label, "qr_string"@) == Some(text::rejoined(parts, seq!['|'])),
        parts.len() >= 7,
        forall|i: int| 0 <= i < parts.len() ==> text::lacks(#[trigger] parts[i], '|'),
    ensures
        context::holds_text(fields, "material_no"@, parts[0]),
        context::holds_text(fields, "lot_no"@, parts[1]),
        context::holds_text(fields, "order_no"@, parts[2]),
        context::holds_text(fields, "count"@, parts[3]),
        context::holds_text(fields, "vender_code"@, parts[4]),
        context::holds_text(fields, "date"@, parts[5]),
        context::holds_text(fields, "box_no"@, parts[6]),
{
    let s = text::rejoined(parts, seq!['|']);
    text::splitting_undoes_joining(parts, '|');
    let keys = context::segment_keys();
    assert forall|i: int| 0 <= i < 7 implies context::holds_text(
        fields,
        #[trigger] keys[i],
        parts[i],
    ) by {
        qr_segments_are_authoritative(label, template, s, fields, i);
    }
    assert(keys[0] == "material_no"@ && keys[1] == "lot_no"@ && keys[2] == "order_no"@);
    assert(keys[3] == "count"@ && keys[4] == "vender_code"@ && keys[5] == "date"@);
    assert(keys[6] == "box_no"@);
}

/// A field of the request that is a text, a number or a flag is what the page shows, as it
/// is; a placeholder that nothing gives a value is blank.
pub proof fn request_fields_are_shown(
    m: Map<Seq<char>, JsonView>,
    template: Seq<char>,
    fields: Map<Seq<char>, JsonView>,
    key: Seq<char>,
    i: int,
)
    requires
        template_fields(JsonView::Object(m), template) == Ok::<
            Map<Seq<char>, JsonView>,
            ErrorView,
        >(fields),
        context::is_no_segment(key),
        !text::occurs_at(key, "_x_"@, 0),
    ensures
        m.contains_key(key) && (m[key] is Text || m[key] is Number || m[key] is Bool)
            ==> fields.contains_key(key) && fields[key] == m[key],
        !m.contains_key(key) && 0 <= i < context::tags(template, "{{"@).len() && context::tags(
            template,
            "{{"@,
        )[i] == key && context::is_plain_name(key) ==> context::holds_text(fields, key, seq![]),
{
    let label = JsonView::Object(m);
    let s = json::text_field(label, "qr_string"@)->0;
    let plain = context::label_fields(label, false);
    let base = context::with_segments(plain, context::segments(s));
    let split = context::split_fields(base, template);
    context::no_segment_is_apart(plain, context::segments(s), key);
    context::splitting_keeps_fields(base, template, key);
    if m.contains_key(key) {
        context::request_fields_keep_their_values(m, key);
        if m[key] is Text || m[key] is Number || m[key] is Bool {
            context::filling_keeps_fields(split, template, key);
        }
    } else if 0 <= i < context::tags(template, "{{"@).len() && context::tags(template, "{{"@)[i]
        == key {
        context::missing_fields_are_blank(split, template, i, key);
    }
}

/// A placeholder for a piece of a text that the page shows gives that very piece; one for a
/// piece that is not there gives nothing.
pub proof fn split_placeholders_show_the_pieces(
    label: JsonView,
    template: Seq<char>,
    fields: Map<Seq<char>, JsonView>,
    i: int,
    field: Seq<char>,
    separator: Seq<char>,
    index: int,
    value: Seq<char>,
)
    requires
        template_fields(label, template) == Ok::<Map<Seq<char>, JsonView>, ErrorView>(fields),
        context::holds_text(fields, field, value),
        value.len() > 0,
        field != "qr_code"@,
        !text::occurs_at(field, "_x_"@, 0),
        0 <= i < context::tags(template, "{{ _x_"@).len(),
        separator.len() > 0,
        0 <= index <= usize::MAX,
        context::tags(template, "{{ _x_"@)[i] == context::split_name(field, separator, index),
    ensures
        ({
            let pieces = text::split(value, separator);
            context::holds_text(
                fields,
                "_x_"@ + context::split_name(field, separator, index),
                if index < pieces.len() {
                    pieces[index]
                } else {
                    seq![]
                },
            )
        }),
{
    let s = json::text_field(label, "qr_string"@)->0;
    let base = context::with_segments(
        context::label_fields(label, false),
        context::segments(s),
    );
    let split = context::split_fields(base, template);
    let name = "_x_"@ + context::split_name(field, separator, index);
    reveal_strlit("qr_code");
    reveal_strlit("_x_");
    assert(name[0] == '_');
    assert("qr_code"@[0] == 'q');
    context::splitting_keeps_fields(base, template, field);
    if !split.contains_key(field) {
        context::filling_adds_empty_texts(split, template, field);
    } else {
        context::filling_keeps_fields(split, template, field);
    }
    context::split_placeholder_shows_the_piece(
        base,
        template,
        i,
        field,
        separator,
        index,
        value,
    );
    context::filling_keeps_fields(split, template, name);
}

/// The browser is told not to slow down what nobody sees, and to draw each pixel once.
pub proof fn browser_is_not_slowed_down()
    ensures
        browser_options().len() == 5,
        browser_options()[0] == "--disable-gpu"@,
        browser_options()[1] == "--force-device-scale-factor=1"@,
        browser_options()[2] == "--disable-background-timer-throttling"@,
        browser_options()[3] == "--disable-renderer-backgrounding"@,
        browser_options()[4] == "--disable-backgrounding-occluded-windows"@,
{
}

} // verus!
