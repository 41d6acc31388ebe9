//! The requests that a workstation's browser makes of its print agent.
use vstd::prelude::*;

use crate::agent::ws_client::RenderOutcome;
use crate::json;
use crate::json::{Json, JsonView};
use crate::text;

verus! {

/// The query of a request for labels.
pub struct LabelQuery {
    /// The template, by id or by name; the default template where absent.
    pub template: Option<String>,
    /// The printer in place of the configured one.
    pub printer: Option<String>,
}

/// What is said of the agent's health.
pub open spec fn health_text(connected: bool) -> Seq<char> {
    if connected {
        "ok, qr_service 已连接"@
    } else {
        "ok, qr_service 未连接"@
    }
}

/// What is said of the agent's health.
pub fn health(connected: bool) -> (r: String)
    ensures
        r@ == health_text(connected),
{
    if connected {
        "ok, qr_service 已连接".to_owned()
    } else {
        "ok, qr_service 未连接".to_owned()
    }
}

/// An answer in words.
#[derive(Debug)]
pub struct TextAnswer {
    pub status: u16,
    pub text: String,
}

/// Labels that the service is asked for.
#[derive(Debug)]
pub struct LabelRequest {
    pub labels: Vec<Json>,
    pub template: Option<String>,
    pub printer: String,
}

/// The labels that a request holds: those of a JSON array that is not empty.
pub open spec fn labels_in(body: JsonView) -> Option<Seq<JsonView>> {
    match body {
        JsonView::Array(items) => if items.len() > 0 {
            Some(items)
        } else {
            None
        },
        _ => None,
    }
}

/// The printer that a request names, or else the configured one.
pub open spec fn printer_of(query: LabelQuery, configured: Seq<char>) -> Seq<char> {
    match query.printer {
        Some(printer) => printer@,
        None => configured,
    }
}

/// Reads a request for labels; anything but a JSON array that is not empty is refused.
pub fn read_request(body: Json, query: LabelQuery, configured_printer: &str) -> (r: Result<
    LabelRequest,
    TextAnswer,
>)
    ensures
        match labels_in(body@) {
            Some(labels) => r matches Ok(request) && json::views(request.labels@) == labels
                && request.template == query.template && request.printer@ == printer_of(
                query,
                configured_printer@,
            ),
            None => r matches Err(answer) && answer.status == 400 && answer.text@
                == "请求体应为非空标签数据数组"@,
        },
        r is Ok <==> (body@ matches JsonView::Array(items) && items.len() > 0),
        r matches Ok(request) ==> {
            &&& body@ == JsonView::Array(json::views(request.labels@))
            &&& query.printer matches Some(p) ==> request.printer@ == p@
            &&& query.printer is None ==> request.printer@ == configured_printer@
            &&& request.template == query.template
        },
{
    match body {
        Json::Array(items) => {
            proof {
                json::items_view_is_views(items@);
            }
            if items.len() > 0 {
                let printer = match query.printer {
                    Some(printer) => printer,
                    None => configured_printer.to_owned(),
                };
                return Ok(LabelRequest { labels: items, template: query.template, printer });
            }
        },
        _ => {},
    }
    Err(TextAnswer { status: 400, text: "请求体应为非空标签数据数组".to_owned() })
}

/// What is to be printed behind the back of a request that was answered.
#[derive(Debug)]
pub struct PrintJob {
    pub job_id: String,
    pub script: String,
    pub printer: String,
}

/// Answers a request for labels once the service was asked: with the picture, which is
/// then printed, or with the reason why there is none.
pub fn answer_request(job_id: String, outcome: Result<RenderOutcome, String>) -> (r: Result<
    (Vec<u8>, PrintJob),
    TextAnswer,
>)
    ensures
        match outcome {
            Ok(o) => r matches Ok((png, job)) && png == o.png && job.job_id == job_id && job.script
                == o.script && job.printer == o.printer,
            Err(error) => r matches Err(answer) && answer.status == 502 && answer.text@
                == "渲染失败: "@ + error@,
        },
{
    match outcome {
        Ok(o) => Ok(
            (o.png, PrintJob { job_id, script: o.script, printer: o.printer }),
        ),
        Err(error) => {
            let mut text = "渲染失败: ".to_owned();
            text.append(error.as_str());
            Err(TextAnswer { status: 502, text })
        },
    }
}

/// The body of a request is taken where it is an array with something in it, and the labels
/// are its items, in order.
pub proof fn requests_hold_their_labels(items: Seq<JsonView>, other: JsonView)
    ensures
        items.len() > 0 ==> labels_in(JsonView::Array(items)) == Some(items),
        items.len() == 0 ==> labels_in(JsonView::Array(items)) is None,
        !(other is Array) ==> labels_in(other) is None,
{
}

/// A request is printed on the printer that it names, and on the configured one where it
/// names none.
pub proof fn named_printer_is_used(query: LabelQuery, configured: Seq<char>)
    ensures
        query.printer matches Some(p) ==> printer_of(query, configured) == p@,
        query.printer is None ==> printer_of(query, configured) == configured,
{
}

/// What is said of the agent's health tells whether the service is connected.
pub proof fn health_tells_the_connection()
    ensures
        health_text(true) == "ok, qr_service 已连接"@,
        health_text(false) == "ok, qr_service 未连接"@,
{
}

/// Whatever a request for labels is read as, it names the printer that was asked for, or else
/// the configured one, and holds the labels and the template of the request.
pub proof fn requests_are_read_as_they_are(
    body: Json,
    query: LabelQuery,
    configured_printer: &str,
    r: Result<LabelRequest, TextAnswer>,
)
    requires
        call_ensures(read_request, (body, query, configured_printer), r),
    ensures
        r is Ok <==> (body@ matches JsonView::Array(items) && items.len() > 0),
        r matches Ok(request) ==> {
            &&& query.printer matches Some(p) ==> request.printer@ == p@
            &&& query.printer is None ==> request.printer@ == configured_printer@
            &&& request.template == query.template
            &&& body@ == JsonView::Array(json::views(request.labels@))
        },
{
}

} // verus!
