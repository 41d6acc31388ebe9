//! Labels whose fields come from the QR text alone, drawn by the page itself.
use vstd::prelude::*;

use crate::codec;
use crate::codec::{decode_base64, qr_code_data_uri};
use crate::context;
use crate::context::{segments_of, set_qr_code, set_segments};
use crate::err::{CustomError, ErrorView, other_error};
use crate::json;
use crate::json::{JsonView, new_fields};
use crate::page;
use crate::page::page_with;
use crate::text;
use crate::text::{chars_of, split_on, string_of, strip_prefixes};

verus! {

/// The fields of a label.
pub struct TemplateData {
    pub material_no: String,
    pub lot_no: String,
    pub order_no: String,
    pub count: String,
    pub vender_code: String,
    pub date: String,
    pub box_no: String,
    pub qr_code: Option<String>,
}

/// The fields that the segments of a QR text give.
pub fn split_info(code: &str) -> (r: TemplateData)
    requires
        context::segments(code@).len() >= 7,
    ensures
        r.material_no@ == context::segments(code@)[0],
        r.lot_no@ == context::segments(code@)[1],
        r.order_no@ == context::segments(code@)[2],
        r.count@ == context::segments(code@)[3],
        r.vender_code@ == context::segments(code@)[4],
        r.date@ == context::segments(code@)[5],
        r.box_no@ == context::segments(code@)[6],
        r.qr_code is None,
{
    let chars = chars_of(code);
    let bar: Vec<char> = vec!['|'];
    assert(bar@ =~= seq!['|']);
    let parts = split_on(chars.as_slice(), bar.as_slice());
    let ghost pieces = context::segments(code@);
    assert(pieces.len() == parts@.len());
    assert forall|i: int| 0 <= i < parts@.len() implies pieces[i] == (#[trigger] parts@[i])@ by {}
    TemplateData {
        material_no: string_of(parts[0].as_slice()),
        lot_no: string_of(parts[1].as_slice()),
        order_no: string_of(parts[2].as_slice()),
        count: string_of(parts[3].as_slice()),
        vender_code: string_of(parts[4].as_slice()),
        date: string_of(parts[5].as_slice()),
        box_no: string_of(parts[6].as_slice()),
        qr_code: None,
    }
}

/// The fields that a template is rendered with: the segments of the QR text and its
/// QR code.
pub open spec fn template_fields(qr_string: Seq<char>) -> Result<
    Map<Seq<char>, JsonView>,
    ErrorView,
> {
    context::with_qr_code(
        context::with_segments(json::no_fields(), context::segments(qr_string)),
        codec::qr_uri(qr_string),
    )
}

/// The fields that a template is rendered with.
pub fn label_context(qr_string: &str) -> (r: Result<
    serde_json::Map<std::string::String, serde_json::Value>,
    CustomError,
>)
    requires
        context::segments(qr_string@).len() >= 7,
    ensures
        context::fields_result(r) == template_fields(qr_string@),
{
    let mut fields = new_fields();
    match segments_of(qr_string) {
        Ok(parts) => set_segments(&mut fields, &parts),
        Err(e) => {
            return Err(e);
        },
    }
    set_qr_code(fields, qr_code_data_uri(qr_string))
}

/// The page of a label.
pub fn label_page(qr_string: &str, template_html: &str) -> (r: Result<String, CustomError>)
    requires
        context::segments(qr_string@).len() >= 7,
    ensures
        page::is_page(r, template_fields(qr_string@), template_html@),
{
    proof {
        let parts = context::segments(qr_string@);
        let uri = codec::qr_uri(qr_string@);
        context::segments_keep_scalars(json::no_fields(), parts, uri);
        context::segments_keep_scalars(context::with_segments(json::no_fields(), parts), parts, uri);
    }
    page_with(template_html, label_context(qr_string))
}

/// The data URL of the picture that a page has drawn, without what says that it is
/// one.
pub open spec fn picture_text(url: Seq<char>) -> Seq<char> {
    text::without_prefixes(url, "data:image/png;base64,"@)
}

/// The picture that a page has drawn, where `decoded` is what its text decodes to.
pub open spec fn picture_with(decoded: Result<Seq<u8>, Seq<char>>) -> Result<Seq<u8>, ErrorView> {
    match decoded {
        Ok(bytes) => Ok(bytes),
        Err(message) => Err(ErrorView::IOError("Failed to decode base64: "@ + message)),
    }
}

/// The picture that a page has drawn, or why there is none.
pub open spec fn drawn_picture(url: Option<Seq<char>>) -> Result<Seq<u8>, ErrorView> {
    match url {
        Some(url) => picture_with(codec::base64_bytes(picture_text(url))),
        None => Err(ErrorView::OtherLibraryError("html2canvas did not return an image"@)),
    }
}

/// What the outcome of reading a picture holds.
pub open spec fn picture_result(r: Result<Vec<u8>, CustomError>) -> Result<Seq<u8>, ErrorView> {
    match r {
        Ok(bytes) => Ok(bytes@),
        Err(e) => Err(e@),
    }
}

/// The picture that a page has drawn, where `decoded` is what its text decodes to.
pub fn picture_of(decoded: Result<Vec<u8>, String>) -> (r: Result<Vec<u8>, CustomError>)
    ensures
        picture_result(r) == picture_with(codec::bytes_result(decoded)),
{
    match decoded {
        Ok(bytes) => Ok(bytes),
        Err(message) => {
            let mut detail = "Failed to decode base64: ".to_owned();
            detail.append(message.as_str());
            Err(CustomError::IOError(detail))
        },
    }
}

/// The picture that a page has drawn; `url` is what its script has returned.
pub fn read_picture(url: Option<&str>) -> (r: Result<Vec<u8>, CustomError>)
    ensures
        picture_result(r) == drawn_picture(
            match url {
                Some(url) => Some(url@),
                None => None,
            },
        ),
{
    match url {
        None => Err(other_error("html2canvas did not return an image")),
        Some(url) => {
            proof {
                reveal_strlit("data:image/png;base64,");
            }
            let chars = chars_of(url);
            let prefix = chars_of("data:image/png;base64,");
            let encoded = string_of(strip_prefixes(chars.as_slice(), prefix.as_slice()));
            picture_of(decode_base64(encoded.as_str()))
        },
    }
}

/// The page of a label shows the seven texts that its QR text joins with bars, and the QR
/// code of the whole text.
pub proof fn label_shows_its_qr_text(
    parts: Seq<Seq<char>>,
    fields: Map<Seq<char>, JsonView>,
)
    requires
        parts.len() >= 7,
        forall|i: int| 0 <= i < parts.len() ==> text::lacks(#[trigger] parts[i], '|'),
        template_fields(text::rejoined(parts, seq!['|'])) == Ok::<
            Map<Seq<char>, JsonView>,
            ErrorView,
        >(fields),
    ensures
        context::holds_text(fields, "material_no"@, parts[0]),
        context::holds_text(fields, "lot_no"@, parts[1]),
        context::holds_text(fields, "order_no"@, parts[2]),
        context::holds_text(fields, "count"@, parts[3]),
        context::holds_text(fields, "vender_code"@, parts[4]),
        context::holds_text(fields, "date"@, parts[5]),
        context::holds_text(fields, "box_no"@, parts[6]),
        codec::qr_uri(text::rejoined(parts, seq!['|'])) matches Ok(uri) && context::holds_text(
            fields,
            "qr_code"@,
            uri,
        ),
        context::segments(text::rejoined(parts, seq!['|'])) == parts,
{
    text::splitting_undoes_joining(parts, '|');
    context::segments_are_the_joined_texts(json::no_fields(), parts, "qr_code"@);
    let keys = context::segment_keys();
    assert forall|i: int| 0 <= i < 7 implies #[trigger] keys[i] != "qr_code"@ by {
        context::segment_keys_are_plain(i);
    }
    assert(keys[0] == "material_no"@ && keys[1] == "lot_no"@ && keys[2] == "order_no"@);
    assert(keys[3] == "count"@ && keys[4] == "vender_code"@ && keys[5] == "date"@);
    assert(keys[6] == "box_no"@);
}

/// The picture that a page has drawn is what the base64 text behind the mark of a PNG data
/// URL decodes to.
pub proof fn drawn_picture_is_decoded(
    encoded: Seq<char>,
    bytes: Seq<u8>,
    message: Seq<char>,
)
    requires
        !text::occurs_at(encoded, "data:image/png;base64,"@, 0),
    ensures
        codec::base64_bytes(encoded) == Ok::<Seq<u8>, Seq<char>>(bytes) ==> drawn_picture(
            Some("data:image/png;base64,"@ + encoded),
        ) == Ok::<Seq<u8>, ErrorView>(bytes) && drawn_picture(Some(encoded)) == Ok::<
            Seq<u8>,
            ErrorView,
        >(bytes),
        codec::base64_bytes(encoded) == Err::<Seq<u8>, Seq<char>>(message) ==> drawn_picture(
            Some("data:image/png;base64,"@ + encoded),
        ) == Err::<Seq<u8>, ErrorView>(
            ErrorView::IOError("Failed to decode base64: "@ + message),
        ),
        drawn_picture(None) == Err::<Seq<u8>, ErrorView>(
            ErrorView::OtherLibraryError("html2canvas did not return an image"@),
        ),
{
    let mark = "data:image/png;base64,"@;
    reveal_strlit("data:image/png;base64,");
    assert((mark + encoded).subrange(0, mark.len() as int) =~= mark);
    assert((mark + encoded).skip(mark.len() as int) =~= encoded);
    assert(text::without_prefixes(encoded, mark) == encoded);
    assert(text::without_prefixes(mark + encoded, mark) == encoded);
}

/// What was decoded is the picture, and what could not be decoded is told.
pub proof fn decoded_bytes_are_the_picture(
    decoded: Seq<u8>,
    message: Seq<char>,
    bytes: Vec<u8>,
    e: CustomError,
)
    ensures
        picture_with(Ok(decoded)) == Ok::<Seq<u8>, ErrorView>(decoded),
        picture_with(Err(message)) == Err::<Seq<u8>, ErrorView>(
            ErrorView::IOError("Failed to decode base64: "@ + message),
        ),
        picture_result(Ok(bytes)) == Ok::<Seq<u8>, ErrorView>(bytes@),
        picture_result(Err(e)) == Err::<Seq<u8>, ErrorView>(e@),
{
}

} // verus!
