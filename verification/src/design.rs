//! What the design of a template and its page must hold.
use vstd::prelude::*;

use crate::err::{CustomError, ErrorView, other_error};
use crate::json;
use crate::json::{Json, JsonView};
use crate::text;
use crate::text::contains;

verus! {

/// A design names its panels.
pub open spec fn has_panels(design: JsonView) -> bool {
    json::field(design, "panels"@) matches Some(panels) && panels is Array
}

/// A page has the element that is turned into a picture.
pub open spec fn has_app(html: Seq<char>) -> bool {
    text::occurs(html, "id=\"app\""@)
}

/// What is wrong with a new design or page.
pub open spec fn payload_error(design: Option<JsonView>, html: Option<Seq<char>>) -> Option<
    ErrorView,
> {
    if design matches Some(d) && !has_panels(d) {
        Some(ErrorView::OtherLibraryError("模板 JSON 缺少 panels 数组"@))
    } else if html matches Some(h) && !has_app(h) {
        Some(ErrorView::OtherLibraryError("模板 HTML 缺少 #app 容器"@))
    } else {
        None
    }
}

/// Refuses a design without panels and a page without the element that is turned into
/// a picture.
pub fn check_payload(design: Option<&Json>, html: Option<&str>) -> (r: Result<(), CustomError>)
    ensures
        match payload_error(
            match design {
                Some(d) => Some(d@),
                None => None,
            },
            match html {
                Some(h) => Some(h@),
                None => None,
            },
        ) {
            Some(e) => r matches Err(error) && error@ == e,
            None => r is Ok,
        },
{
    if let Some(design) = design {
        let ok = match design.get("panels") {
            Some(panels) => panels.is_array(),
            None => false,
        };
        if !ok {
            return Err(other_error("模板 JSON 缺少 panels 数组"));
        }
    }
    if let Some(html) = html {
        if !contains(html, "id=\"app\"") {
            return Err(other_error("模板 HTML 缺少 #app 容器"));
        }
    }
    Ok(())
}

/// A design is refused where it has no array of panels, and a page where it has no element
/// `app`; the design comes first. What is not given is not refused.
pub proof fn payloads_are_refused(m: Map<Seq<char>, JsonView>, html: Seq<char>, other: JsonView)
    ensures
        ({
            let good = m.contains_key("panels"@) && m["panels"@] is Array;
            let shown = exists|i: int| text::occurs_at(html, "id=\"app\""@, i);
            let design = Some(JsonView::Object(m));
            &&& payload_error(None, None) is None
            &&& payload_error(design, None) is None <==> good
            &&& payload_error(None, Some(html)) is None <==> shown
            &&& payload_error(design, Some(html)) is None <==> good && shown
            &&& !good ==> payload_error(design, Some(html)) == Some(
                ErrorView::OtherLibraryError("模板 JSON 缺少 panels 数组"@),
            )
            &&& good && !shown ==> payload_error(design, Some(html)) == Some(
                ErrorView::OtherLibraryError("模板 HTML 缺少 #app 容器"@),
            )
            &&& !(other is Object) ==> payload_error(Some(other), None) is Some
        }),
{
}

} // verus!
