//! The connection of a print agent to the service: what is asked over it, what comes
//! back, and how long to wait before it is made again.
use vstd::prelude::*;

use crate::codec;
use crate::codec::decode_base64;
use crate::context;
use crate::decimal;
use crate::decimal::unsigned_text;
use crate::json;
use crate::json::{Json, JsonView, add_field, add_text, parse};
use crate::service::agent_ws;
use crate::service::agent_ws::MessageView;
use crate::text;
use crate::text::{
    chars_of, lines_of, same_str, split_on, string_of, text_of_bytes, trimmed, trimmed_of,
};
use crate::text_map::TextMap;

verus! {

// ---------------------------------------------------------------------------
// Responses
// ---------------------------------------------------------------------------

/// What the service sends of a label that it rendered.
#[derive(Debug)]
pub struct RenderOutcome {
    pub png: Vec<u8>,
    /// The script that prints the label.
    pub script: String,
    /// The printer that is used; the default printer of the system where empty.
    pub printer: String,
    /// Where the name of the printer comes from: `server` for the settings of the
    /// station, `agent` for the agent's configuration or the request.
    pub printer_source: String,
}

pub struct OutcomeView {
    pub png: Seq<u8>,
    pub script: Seq<char>,
    pub printer: Seq<char>,
    pub printer_source: Seq<char>,
}

impl View for RenderOutcome {
    type V = OutcomeView;

    open spec fn view(&self) -> OutcomeView {
        OutcomeView {
            png: self.png@,
            script: self.script@,
            printer: self.printer@,
            printer_source: self.printer_source@,
        }
    }
}

/// What the outcome of rendering holds.
pub open spec fn outcome_result(r: Result<RenderOutcome, String>) -> Result<OutcomeView, Seq<char>> {
    match r {
        Ok(outcome) => Ok(outcome@),
        Err(message) => Err(message@),
    }
}

/// The text in the field `key`, or another text in its place.
pub open spec fn text_or(v: JsonView, key: Seq<char>, other: Seq<char>) -> Seq<char> {
    match json::text_field(v, key) {
        Some(s) => s,
        None => other,
    }
}

/// The picture that a response carries.
pub open spec fn picture_in(v: JsonView) -> Option<Seq<u8>> {
    match json::text_field(v, "png_base64"@) {
        Some(s) => match codec::base64_bytes(s) {
            Ok(bytes) => Some(bytes),
            Err(_) => None,
        },
        None => None,
    }
}

/// The outcome that a response carries, where `picture` is the picture in it: that of
/// a label that was rendered, or the reason why it was not. Other messages carry none.
pub open spec fn outcome_with(v: JsonView, picture: Option<Seq<u8>>) -> Option<
    Result<OutcomeView, Seq<char>>,
> {
    match json::text_field(v, "type"@) {
        None => None,
        Some(kind) => if kind == "render_ok"@ {
            match (picture, json::text_field(v, "print_script"@)) {
                (Some(png), Some(script)) => Some(
                    Ok(
                        OutcomeView {
                            png,
                            script,
                            printer: text_or(v, "printer"@, seq![]),
                            printer_source: text_or(v, "printer_source"@, "agent"@),
                        },
                    ),
                ),
                _ => Some(Err("渲染结果缺少 png_base64 或 print_script"@)),
            }
        } else if kind == "render_err"@ {
            Some(Err(text_or(v, "error"@, "渲染失败"@)))
        } else {
            None
        },
    }
}

/// The job that a message answers, and how. Nothing where the message is no response.
pub open spec fn response_in(message: Seq<char>) -> Option<
    (Seq<char>, Result<OutcomeView, Seq<char>>),
> {
    match json::document(message) {
        Err(_) => None,
        Ok(v) => match outcome_with(v, picture_in(v)) {
            Some(outcome) => Some((text_or(v, "job_id"@, seq![]), outcome)),
            None => None,
        },
    }
}

fn owned_or(value: Option<&str>, other: &str) -> (r: String)
    ensures
        r@ == (match value {
            Some(s) => s@,
            None => other@,
        }),
{
    match value {
        Some(s) => s.to_owned(),
        None => other.to_owned(),
    }
}

fn read_picture(value: &Json) -> (r: Option<Vec<u8>>)
    ensures
        picture_in(value@) == (match r {
            Some(png) => Some(png@),
            None => None,
        }),
{
    match value.get_str("png_base64") {
        Some(s) => match decode_base64(s) {
            Ok(png) => Some(png),
            Err(_) => None,
        },
        None => None,
    }
}

/// The outcome that a response carries, where `picture` is the picture in it.
pub fn read_outcome(value: &Json, picture: Option<Vec<u8>>) -> (r: Option<
    Result<RenderOutcome, String>,
>)
    ensures
        outcome_with(
            value@,
            match picture {
                Some(png) => Some(png@),
                None => None,
            },
        ) == (match r {
            Some(outcome) => Some(outcome_result(outcome)),
            None => None,
        }),
{
    proof {
        reveal_strlit("");
        assert(""@ =~= seq![]);
    }
    match value.get_str("type") {
        None => None,
        Some(kind) => {
            if same_str(kind, "render_ok") {
                match (picture, value.get_str("print_script")) {
                    (Some(png), Some(script)) => Some(
                        Ok(
                            RenderOutcome {
                                png,
                                script: script.to_owned(),
                                printer: owned_or(value.get_str("printer"), ""),
                                printer_source: owned_or(value.get_str("printer_source"), "agent"),
                            },
                        ),
                    ),
                    _ => Some(Err("渲染结果缺少 png_base64 或 print_script".to_owned())),
                }
            } else if same_str(kind, "render_err") {
                Some(Err(owned_or(value.get_str("error"), "渲染失败")))
            } else {
                None
            }
        },
    }
}

/// What the outcome of reading a response holds.
pub open spec fn response_result(r: Option<(String, Result<RenderOutcome, String>)>) -> Option<
    (Seq<char>, Result<OutcomeView, Seq<char>>),
> {
    match r {
        Some((job_id, outcome)) => Some((job_id@, outcome_result(outcome))),
        None => None,
    }
}

/// The job that a message answers, and how.
pub fn read_response(message: &str) -> (r: Option<(String, Result<RenderOutcome, String>)>)
    ensures
        response_result(r) == response_in(message@),
{
    proof {
        reveal_strlit("");
        assert(""@ =~= seq![]);
    }
    match parse(message) {
        Err(_) => None,
        Ok(value) => {
            let picture = read_picture(&value);
            match read_outcome(&value, picture) {
                Some(outcome) => Some((owned_or(value.get_str("job_id"), ""), outcome)),
                None => None,
            }
        },
    }
}

// ---------------------------------------------------------------------------
// Jobs
// ---------------------------------------------------------------------------

/// The state of the connection and the jobs that wait for an answer.
pub struct ClientState {
    pub connected: bool,
    pub process_id: u32,
    /// The number of the next job.
    pub next_job: u64,
    pub pending: TextMap<()>,
}

pub struct ClientView {
    pub connected: bool,
    pub process_id: u32,
    pub next_job: u64,
    /// The ids of the jobs that wait for an answer.
    pub pending: Map<Seq<char>, ()>,
}

impl View for ClientState {
    type V = ClientView;

    open spec fn view(&self) -> ClientView {
        ClientView {
            connected: self.connected,
            process_id: self.process_id,
            next_job: self.next_job,
            pending: self.pending@,
        }
    }
}

impl ClientState {
    /// No job waits twice.
    pub open spec fn is_valid(self) -> bool {
        self.pending.is_valid()
    }
}

/// How long to wait for a label, in seconds.
pub const RENDER_TIMEOUT_SECS: u64 = 30;

/// The client before its first connection.
pub fn start(process_id: u32) -> (r: ClientState)
    ensures
        r.is_valid(),
        r@ == (ClientView {
            connected: false,
            process_id,
            next_job: 1,
            pending: Map::<Seq<char>, ()>::empty(),
        }),
{
    ClientState { connected: false, process_id, next_job: 1, pending: TextMap::new() }
}

/// The service is connected.
pub fn is_connected(state: &ClientState) -> (r: bool)
    ensures
        r == state@.connected,
{
    state.connected
}

/// Notes that the connection is made.
pub fn set_connected(state: &mut ClientState)
    requires
        old(state).is_valid(),
    ensures
        final(state).is_valid(),
        final(state)@ == (ClientView { connected: true, ..old(state)@ }),
{
    state.connected = true;
}

/// The reason for which the jobs fail that wait when the connection ends.
pub const DISCONNECTED: &'static str = "与 qr_service 的连接已断开";

/// Notes that the connection has ended: every job that waits fails, and none is left.
pub fn fail_all_pending(state: &mut ClientState) -> (r: Vec<String>)
    requires
        old(state).is_valid(),
    ensures
        final(state).is_valid(),
        final(state)@ == (ClientView {
            connected: false,
            pending: Map::<Seq<char>, ()>::empty(),
            ..old(state)@
        }),
        forall|id: Seq<char>| #[trigger]
            text::texts(r@).contains(id) <==> old(state)@.pending.contains_key(id),
        text::texts(r@).no_duplicates(),
{
    let ghost list = state.pending.list();
    let mut r: Vec<String> = Vec::new();
    let mut i: usize = 0;
    while i < state.pending.entries().len()
        invariant
            list == state.pending.list(),
            i <= list.len(),
            r@.len() == i,
            state@ == old(state)@,
            forall|k: int| 0 <= k < i ==> (#[trigger] r@[k])@ == list[k].0@,
        decreases list.len() - i,
    {
        r.push(state.pending.entries()[i].0.clone());
        i += 1;
    }
    proof {
        let names = text::texts(r@);
        assert forall|id: Seq<char>| #[trigger] names.contains(id) implies old(
            state,
        )@.pending.contains_key(id) by {
            let k = choose|k: int| 0 <= k < names.len() && names[k] == id;
            crate::text_map::value_at(list, id);
            assert(crate::text_map::is_at(list, id, k));
        }
        assert forall|id: Seq<char>| old(
            state,
        )@.pending.contains_key(id) implies #[trigger] names.contains(id) by {
            crate::text_map::value_at(list, id);
            let k = choose|k: int| crate::text_map::is_at(list, id, k);
            assert(names[k] == id);
        }
        assert forall|a: int, b: int| 0 <= a < names.len() && 0 <= b < names.len() && a
            != b implies names[a] != names[b] by {
            if a < b {
                assert(list[a].0@ != list[b].0@);
            } else {
                assert(list[b].0@ != list[a].0@);
            }
        }
    }
    state.connected = false;
    state.pending = TextMap::new();
    r
}

/// The id of a job.
pub open spec fn job_id(process_id: u32, number: u64) -> Seq<char> {
    decimal::decimal(process_id as int) + "-"@ + decimal::decimal(number as int)
}

/// A text that may be absent, as JSON.
pub open spec fn optional(s: Option<Seq<char>>) -> JsonView {
    match s {
        Some(s) => JsonView::Text(s),
        None => JsonView::Null,
    }
}

fn optional_text(s: Option<&str>) -> (r: Json)
    ensures
        r@ == optional(
            match s {
                Some(s) => Some(s@),
                None => None,
            },
        ),
{
    match s {
        Some(s) => Json::Text(s.to_owned()),
        None => Json::Null,
    }
}

/// The message that asks for labels.
pub open spec fn render_message(
    id: Seq<char>,
    template: Option<Seq<char>>,
    labels: Seq<JsonView>,
    printer: Seq<char>,
) -> JsonView {
    JsonView::Object(
        json::no_fields().insert("type"@, JsonView::Text("render"@)).insert(
            "job_id"@,
            JsonView::Text(id),
        ).insert("template"@, optional(template)).insert("labels"@, JsonView::Array(labels)).insert(
            "printer"@,
            JsonView::Text(printer),
        ),
    )
}

/// A client that asks for labels: the client with a job more, the id of the job and
/// the message; an error where the service is not connected.
pub open spec fn asked(
    v: ClientView,
    url: Seq<char>,
    labels: Seq<JsonView>,
    template: Option<Seq<char>>,
    printer: Seq<char>,
) -> (ClientView, Result<(Seq<char>, Seq<char>), Seq<char>>) {
    if !v.connected {
        (
            v,
            Err(
                "未连接到 qr_service（"@ + url + "），请检查服务器地址与网络"@,
            ),
        )
    } else {
        let id = job_id(v.process_id, v.next_job);
        (
            ClientView {
                next_job: if v.next_job == u64::MAX {
                    0
                } else {
                    (v.next_job + 1) as u64
                },
                pending: v.pending.insert(id, ()),
                ..v
            },
            Ok((id, json::compact(render_message(id, template, labels, printer)))),
        )
    }
}

/// What the outcome of asking for labels holds.
pub open spec fn ask_result(r: Result<(String, String), String>) -> Result<
    (Seq<char>, Seq<char>),
    Seq<char>,
> {
    match r {
        Ok((id, message)) => Ok((id@, message@)),
        Err(error) => Err(error@),
    }
}

/// Labels that are read back as they were written: their numbers are whole or short
/// decimals, and they are not nested too deep.
pub open spec fn labels_read_back(labels: Seq<JsonView>) -> bool {
    forall|i: int|
        0 <= i < labels.len() ==> json::is_exact(
            #[trigger] labels[i],
            (json::MAX_DEPTH - 2) as nat,
        )
}

proof fn render_message_reads_back(
    id: Seq<char>,
    template: Option<Seq<char>>,
    labels: Seq<JsonView>,
    printer: Seq<char>,
)
    requires
        labels_read_back(labels),
    ensures
        json::reads_back(render_message(id, template, labels, printer)),
        agent_ws::message_in(render_message(id, template, labels, printer)) == Some(
            MessageView::Render { job_id: id, template, labels, printer: Some(printer) },
        ),
{
    keys_of_reports_differ();
    let v = render_message(id, template, labels, printer);
    let fields = v->Object_0;
    let depth = (json::MAX_DEPTH - 1) as nat;
    assert(json::is_exact(JsonView::Array(labels), depth));
    assert forall|k: Seq<char>| #[trigger] fields.contains_key(k) implies json::is_exact(
        fields[k],
        depth,
    ) by {
        if k == "labels"@ {
            assert(fields[k] == JsonView::Array(labels));
        } else {
            assert(fields[k] is Text || fields[k] is Null);
        }
    }
}

/// Asks for labels: notes the job, and gives its id and the message to send. The
/// service reads back from it what is asked for.
pub fn begin_render(
    state: &mut ClientState,
    url: &str,
    labels: Vec<Json>,
    template: Option<&str>,
    printer: &str,
) -> (r: Result<(String, String), String>)
    requires
        old(state).is_valid(),
    ensures
        final(state).is_valid(),
        (final(state)@, ask_result(r)) == asked(
            old(state)@,
            url@,
            json::views(labels@),
            match template {
                Some(t) => Some(t@),
                None => None,
            },
            printer@,
        ),
        match r {
            Ok((id, message)) => labels_read_back(json::views(labels@)) ==> agent_ws::message_of(
                message@,
            ) == Some(
                MessageView::Render {
                    job_id: id@,
                    template: match template {
                        Some(t) => Some(t@),
                        None => None,
                    },
                    labels: json::views(labels@),
                    printer: Some(printer@),
                },
            ),
            Err(_) => true,
        },
{
    if !is_connected(state) {
        let mut error = "未连接到 qr_service（".to_owned();
        error.append(url);
        error.append("），请检查服务器地址与网络");
        return Err(error);
    }
    let mut id = unsigned_text(state.process_id as u128);
    id.append("-");
    id.append(unsigned_text(state.next_job as u128).as_str());
    state.next_job = if state.next_job == u64::MAX {
        0
    } else {
        state.next_job + 1
    };
    state.pending.insert(id.clone(), ());
    proof {
        json::items_view_is_views(labels@);
    }
    let mut fields: Vec<(String, Json)> = Vec::new();
    assert(json::fields_view(fields@) =~= json::no_fields());
    add_text(&mut fields, "type", "render");
    add_text(&mut fields, "job_id", id.as_str());
    add_field(&mut fields, "template", optional_text(template));
    add_field(&mut fields, "labels", Json::Array(labels));
    add_text(&mut fields, "printer", printer);
    proof {
        let asked_for = json::views(labels@);
        if labels_read_back(asked_for) {
            render_message_reads_back(
                id@,
                match template {
                    Some(t) => Some(t@),
                    None => None,
                },
                asked_for,
                printer@,
            );
        }
    }
    let message = Json::Object(fields).to_text();
    Ok((id, message))
}

/// A client that gets a message: where it answers a job that waits, the job waits no
/// more and gets the outcome.
pub open spec fn answered(v: ClientView, message: Seq<char>) -> (
    ClientView,
    Option<(Seq<char>, Result<OutcomeView, Seq<char>>)>,
) {
    match response_in(message) {
        Some((id, outcome)) => if v.pending.contains_key(id) {
            (ClientView { pending: v.pending.remove(id), ..v }, Some((id, outcome)))
        } else {
            (v, None)
        },
        None => (v, None),
    }
}

/// Takes a message of the service: gives the job that it answers, and how.
pub fn route_response(state: &mut ClientState, message: &str) -> (r: Option<
    (String, Result<RenderOutcome, String>),
>)
    requires
        old(state).is_valid(),
    ensures
        final(state).is_valid(),
        (final(state)@, response_result(r)) == answered(old(state)@, message@),
{
    match read_response(message) {
        Some((id, outcome)) => {
            let ghost before = state.pending@;
            match state.pending.remove(id.as_str()) {
                Some(_) => Some((id, outcome)),
                None => {
                    assert(before.remove(id@) =~= before);
                    None
                },
            }
        },
        None => None,
    }
}

/// How the wait for a label ended.
pub enum Wait {
    /// The job was answered.
    Answered(Result<RenderOutcome, String>),
    /// Nobody is left who could answer.
    Closed,
    /// The time was up.
    TimedOut,
}

/// What the wait for a label gives.
pub open spec fn wait_outcome(wait: Wait) -> Result<OutcomeView, Seq<char>> {
    match wait {
        Wait::Answered(r) => outcome_result(r),
        Wait::Closed => Err("渲染结果通道已关闭"@),
        Wait::TimedOut => Err("渲染超时（30 秒）"@),
    }
}

/// Ends the wait for a label: a job whose time is up waits no more.
pub fn end_wait(state: &mut ClientState, id: &str, wait: Wait) -> (r: Result<RenderOutcome, String>)
    requires
        old(state).is_valid(),
    ensures
        final(state).is_valid(),
        outcome_result(r) == wait_outcome(wait),
        final(state)@ == (if wait is TimedOut {
            ClientView { pending: old(state)@.pending.remove(id@), ..old(state)@ }
        } else {
            old(state)@
        }),
{
    match wait {
        Wait::Answered(r) => r,
        Wait::Closed => Err("渲染结果通道已关闭".to_owned()),
        Wait::TimedOut => {
            let _ = state.pending.remove(id);
            Err("渲染超时（30 秒）".to_owned())
        },
    }
}

/// A job that was answered waits no more, and is not answered by a second response.
pub proof fn jobs_are_answered_once(v: ClientView, first: Seq<char>, second: Seq<char>)
    requires
        answered(v, first).1 is Some,
        response_in(second) is Some,
        (response_in(second)->0).0 == (answered(v, first).1->0).0,
    ensures
        answered(answered(v, first).0, second) == (
            answered(v, first).0,
            None::<(Seq<char>, Result<OutcomeView, Seq<char>>)>,
        ),
        !answered(v, first).0.pending.contains_key((answered(v, first).1->0).0),
{
}

/// A message answers no job but the one that it names.
pub proof fn other_jobs_keep_waiting(v: ClientView, message: Seq<char>, id: Seq<char>)
    requires
        v.pending.contains_key(id),
        answered(v, message).1 is None || (answered(v, message).1->0).0 != id,
    ensures
        answered(v, message).0.pending.contains_key(id),
{
}

/// The ids of two jobs of one process differ.
pub proof fn job_ids_differ(process_id: u32, a: u64, b: u64)
    requires
        a != b,
    ensures
        job_id(process_id, a) != job_id(process_id, b),
{
    let head = decimal::decimal(process_id as int) + "-"@;
    if job_id(process_id, a) == job_id(process_id, b) {
        assert(job_id(process_id, a).skip(head.len() as int) =~= decimal::decimal(a as int));
        assert(job_id(process_id, b).skip(head.len() as int) =~= decimal::decimal(b as int));
        decimal::decimal_reads_back(a as int, 0, u64::MAX as int);
        decimal::decimal_reads_back(b as int, 0, u64::MAX as int);
    }
}

/// A job whose time was up, or that waited when the connection ended, is not answered
/// by a late response.
pub proof fn late_responses_answer_nothing(v: ClientView, message: Seq<char>, id: Seq<char>)
    requires
        response_in(message) is Some,
        (response_in(message)->0).0 == id,
    ensures
        answered(ClientView { pending: v.pending.remove(id), ..v }, message).1 is None,
        answered(ClientView { pending: Map::empty(), ..v }, message).1 is None,
{
}

// ---------------------------------------------------------------------------
// What the agent reports
// ---------------------------------------------------------------------------

/// Texts as a JSON array.
pub open spec fn text_array(list: Seq<Seq<char>>) -> JsonView {
    JsonView::Array(list.map_values(|s: Seq<char>| JsonView::Text(s)))
}

fn array_of_texts(list: &Vec<String>) -> (r: Json)
    ensures
        r@ == text_array(text::texts(list@)),
{
    let mut items: Vec<Json> = Vec::new();
    let mut i: usize = 0;
    while i < list.len()
        invariant
            i <= list@.len(),
            items@.len() == i,
            forall|k: int| 0 <= k < i ==> (#[trigger] items@[k])@ == JsonView::Text(list@[k]@),
        decreases list@.len() - i,
    {
        items.push(Json::Text(list[i].clone()));
        i += 1;
    }
    proof {
        json::items_view_is_views(items@);
        assert(json::views(items@) =~= text::texts(list@).map_values(
            |s: Seq<char>| JsonView::Text(s),
        ));
    }
    Json::Array(items)
}

proof fn texts_of_text_array(list: Seq<Seq<char>>)
    ensures
        text_array(list) matches JsonView::Array(items) && agent_ws::are_texts(items)
            && items.map_values(|j: JsonView| j->Text_0) == list,
{
    let items = list.map_values(|s: Seq<char>| JsonView::Text(s));
    assert(items.map_values(|j: JsonView| j->Text_0) =~= list);
}

proof fn keys_of_reports_differ()
    ensures
        "type"@ != "job_id"@,
        "type"@ != "template"@,
        "type"@ != "labels"@,
        "type"@ != "printer"@,
        "type"@ != "printers"@,
        "type"@ != "station"@,
        "type"@ != "ok"@,
        "type"@ != "error"@,
        "job_id"@ != "template"@,
        "job_id"@ != "labels"@,
        "job_id"@ != "printer"@,
        "job_id"@ != "ok"@,
        "job_id"@ != "error"@,
        "template"@ != "labels"@,
        "template"@ != "printer"@,
        "labels"@ != "printer"@,
        "printer"@ != "ok"@,
        "printer"@ != "error"@,
        "printers"@ != "station"@,
        "ok"@ != "error"@,
        "render"@ != "hello"@,
        "render"@ != "print_result"@,
        "hello"@ != "print_result"@,
        json::RAW_KEY@ != "type"@,
        json::RAW_KEY@ != "job_id"@,
        json::RAW_KEY@ != "template"@,
        json::RAW_KEY@ != "labels"@,
        json::RAW_KEY@ != "printer"@,
        json::RAW_KEY@ != "printers"@,
        json::RAW_KEY@ != "station"@,
        json::RAW_KEY@ != "ok"@,
        json::RAW_KEY@ != "error"@,
{
    json::raw_key_is_long();
    reveal_strlit("type");
    reveal_strlit("job_id");
    reveal_strlit("template");
    reveal_strlit("labels");
    reveal_strlit("printer");
    reveal_strlit("printers");
    reveal_strlit("station");
    reveal_strlit("ok");
    reveal_strlit("error");
    reveal_strlit("render");
    reveal_strlit("hello");
    reveal_strlit("print_result");
    assert("type"@.len() == 4 && "job_id"@.len() == 6 && "template"@.len() == 8);
    assert("labels"@.len() == 6 && "printer"@.len() == 7 && "printers"@.len() == 8);
    assert("station"@.len() == 7 && "ok"@.len() == 2 && "error"@.len() == 5);
    assert("render"@.len() == 6 && "hello"@.len() == 5 && "print_result"@.len() == 12);
    assert("job_id"@[0] == 'j' && "labels"@[0] == 'l');
}

/// The message with which an agent reports itself and its printers.
pub open spec fn hello(station: Seq<char>, printers: Seq<Seq<char>>) -> JsonView {
    JsonView::Object(
        json::no_fields().insert("type"@, JsonView::Text("hello"@)).insert(
            "station"@,
            JsonView::Text(station),
        ).insert("printers"@, text_array(printers)),
    )
}

/// The message with which an agent reports itself and its printers. The service reads
/// the printers back from it.
pub fn hello_message(station: &str, printers: &Vec<String>) -> (r: String)
    ensures
        r@ == json::compact(hello(station@, text::texts(printers@))),
        agent_ws::message_of(r@) == Some(
            MessageView::Hello { printers: text::texts(printers@) },
        ),
{
    proof {
        keys_of_reports_differ();
        texts_of_text_array(text::texts(printers@));
    }
    let mut fields: Vec<(String, Json)> = Vec::new();
    assert(json::fields_view(fields@) =~= json::no_fields());
    add_text(&mut fields, "type", "hello");
    add_text(&mut fields, "station", station);
    add_field(&mut fields, "printers", array_of_texts(printers));
    proof {
        json::flat_objects_read_back(json::fields_view(fields@));
    }
    Json::Object(fields).to_text()
}

/// The message with which an agent reports how a print ended.
pub open spec fn print_result(
    id: Seq<char>,
    printer: Seq<char>,
    result: Result<(), Seq<char>>,
) -> JsonView {
    JsonView::Object(
        json::no_fields().insert("type"@, JsonView::Text("print_result"@)).insert(
            "job_id"@,
            JsonView::Text(id),
        ).insert("printer"@, JsonView::Text(printer)).insert(
            "ok"@,
            JsonView::Bool(result is Ok),
        ).insert(
            "error"@,
            match result {
                Ok(()) => JsonView::Null,
                Err(error) => JsonView::Text(error),
            },
        ),
    )
}

/// What the outcome of a print says.
pub open spec fn print_outcome(r: Result<(), String>) -> Result<(), Seq<char>> {
    match r {
        Ok(()) => Ok(()),
        Err(error) => Err(error@),
    }
}

/// The message with which an agent reports how a print ended. The service reads it
/// back.
pub fn notify_print_result(id: &str, printer: &str, result: Result<(), String>) -> (r: String)
    ensures
        r@ == json::compact(print_result(id@, printer@, print_outcome(result))),
        agent_ws::message_of(r@) == Some(
            MessageView::PrintResult {
                job_id: id@,
                ok: result is Ok,
                error: match print_outcome(result) {
                    Ok(()) => None,
                    Err(error) => Some(error),
                },
            },
        ),
{
    proof {
        keys_of_reports_differ();
    }
    let mut fields: Vec<(String, Json)> = Vec::new();
    assert(json::fields_view(fields@) =~= json::no_fields());
    add_text(&mut fields, "type", "print_result");
    add_text(&mut fields, "job_id", id);
    add_text(&mut fields, "printer", printer);
    let (ok, error) = match result {
        Ok(()) => (true, Json::Null),
        Err(error) => (false, Json::Text(error)),
    };
    add_field(&mut fields, "ok", Json::Bool(ok));
    add_field(&mut fields, "error", error);
    proof {
        json::flat_objects_read_back(json::fields_view(fields@));
    }
    Json::Object(fields).to_text()
}

// ---------------------------------------------------------------------------
// The connection
// ---------------------------------------------------------------------------

/// The address that an agent connects to.
pub open spec fn address(url: Seq<char>, station: Seq<char>, mac: Option<Seq<char>>) -> Seq<char> {
    url + "?station="@ + station + "&mac="@ + match mac {
        Some(m) => m,
        None => seq![],
    }
}

/// The address that an agent connects to: that of the service, with the name of the
/// station and the address of its network card.
pub fn connection_url(url: &str, station: &str, mac: Option<&str>) -> (r: String)
    ensures
        r@ == address(
            url@,
            station@,
            match mac {
                Some(m) => Some(m@),
                None => None,
            },
        ),
{
    let mut r = url.to_owned();
    r.append("?station=");
    r.append(station);
    r.append("&mac=");
    match mac {
        Some(m) => {
            r.append(m);
        },
        None => {},
    }
    r
}

/// The longest wait before the connection is made again, in seconds.
pub const MAX_BACKOFF_SECS: u64 = 30;

/// The wait before the connection is made again doubles each time, up to half a
/// minute.
pub fn next_backoff(secs: u64) -> (r: u64)
    ensures
        r as int == if 2 * secs <= MAX_BACKOFF_SECS {
            2 * secs
        } else {
            MAX_BACKOFF_SECS as int
        },
{
    if secs <= MAX_BACKOFF_SECS / 2 {
        2 * secs
    } else {
        MAX_BACKOFF_SECS
    }
}

/// How far a connection has come.
#[derive(PartialEq, Eq, Structural, Clone, Copy)]
pub enum Phase {
    /// It is not made yet.
    New,
    /// The printers are being reported for the first time.
    Greeting,
    /// It counts as connected.
    Open,
}

/// A connection to the service.
pub struct Connection {
    pub phase: Phase,
    /// The printers that were reported last.
    pub known: Vec<String>,
}

/// What comes up on a connection.
pub enum ConnectionEvent {
    /// The connection was made; these are the printers.
    Opened(Vec<String>),
    /// What was to be sent was sent.
    Sent,
    /// What was to be sent was not.
    NotSent(String),
    /// The printers were looked up again.
    Printers(Vec<String>),
    /// A text message came.
    Text(String),
    /// A ping came.
    Ping(Vec<u8>),
    /// A message of another kind came.
    Other,
    /// The other side closed the connection.
    Closed,
    /// Reading failed.
    Failed(String),
    /// A message is to be sent.
    Outgoing(String),
    /// No message will be sent any more.
    NoMore,
}

/// What is to be done about it.
pub enum ConnectionAction {
    Nothing,
    /// Send this text.
    Send(String),
    /// The client counts as connected.
    Connected,
    /// Answer a ping.
    Pong(Vec<u8>),
    /// Take this message of the service.
    Route(String),
    /// End the connection.
    Stop,
    /// End the connection with this error.
    Fail(String),
}

/// The printers that are reported on an event, where they are.
pub open spec fn reported(phase: Phase, known: Seq<Seq<char>>, event: ConnectionEvent) -> Option<
    Seq<Seq<char>>,
> {
    match (phase, event) {
        (Phase::New, ConnectionEvent::Opened(printers)) => Some(text::texts(printers@)),
        (Phase::Open, ConnectionEvent::Printers(printers)) => if text::texts(printers@) == known {
            None
        } else {
            Some(text::texts(printers@))
        },
        _ => None,
    }
}

/// The text that is sent on an event, where one is.
pub open spec fn sent(
    phase: Phase,
    known: Seq<Seq<char>>,
    event: ConnectionEvent,
    station: Seq<char>,
) -> Option<Seq<char>> {
    match reported(phase, known, event) {
        Some(printers) => Some(json::compact(hello(station, printers))),
        None => match (phase, event) {
            (Phase::Open, ConnectionEvent::Outgoing(message)) => Some(message@),
            _ => None,
        },
    }
}

/// `action` is what is to be done about `event`; `known` are the printers that were
/// reported last.
pub open spec fn is_answer(
    action: ConnectionAction,
    phase: Phase,
    known: Seq<Seq<char>>,
    event: ConnectionEvent,
    station: Seq<char>,
) -> bool {
    match sent(phase, known, event, station) {
        Some(message) => action matches ConnectionAction::Send(m) && m@ == message,
        None => match phase {
            Phase::New => action is Nothing,
            Phase::Greeting => match event {
                ConnectionEvent::Sent => action is Connected,
                ConnectionEvent::NotSent(error) => action == ConnectionAction::Fail(error),
                _ => action is Nothing,
            },
            Phase::Open => match event {
                ConnectionEvent::Text(message) => action == ConnectionAction::Route(message),
                ConnectionEvent::Ping(bytes) => action == ConnectionAction::Pong(bytes),
                ConnectionEvent::Failed(error) => action == ConnectionAction::Fail(error),
                ConnectionEvent::Closed => action is Stop,
                ConnectionEvent::NoMore => action is Stop,
                ConnectionEvent::NotSent(_) => action is Stop,
                _ => action is Nothing,
            },
        },
    }
}

/// How far a connection has come after an event.
pub open spec fn phase_after(phase: Phase, event: ConnectionEvent) -> Phase {
    match (phase, event) {
        (Phase::New, ConnectionEvent::Opened(_)) => Phase::Greeting,
        (Phase::Greeting, ConnectionEvent::Sent) => Phase::Open,
        _ => phase,
    }
}

/// The printers that were reported last, after an event.
pub open spec fn known_after(phase: Phase, known: Seq<Seq<char>>, event: ConnectionEvent) -> Seq<
    Seq<char>,
> {
    match reported(phase, known, event) {
        Some(printers) => printers,
        None => known,
    }
}

/// A connection that is not made yet.
pub fn new_connection() -> (r: Connection)
    ensures
        r.phase == Phase::New,
        text::texts(r.known@) == Seq::<Seq<char>>::empty(),
{
    let r = Connection { phase: Phase::New, known: Vec::new() };
    assert(text::texts(r.known@) =~= Seq::<Seq<char>>::empty());
    r
}

fn same_list(a: &Vec<String>, b: &Vec<String>) -> (r: bool)
    ensures
        r == (text::texts(a@) == text::texts(b@)),
{
    if a.len() != b.len() {
        assert(text::texts(a@).len() != text::texts(b@).len());
        return false;
    }
    let mut i: usize = 0;
    while i < a.len()
        invariant
            a@.len() == b@.len(),
            i <= a@.len(),
            forall|k: int| 0 <= k < i ==> (#[trigger] a@[k])@ == b@[k]@,
        decreases a@.len() - i,
    {
        if !same_str(a[i].as_str(), b[i].as_str()) {
            assert(text::texts(a@)[i as int] != text::texts(b@)[i as int]);
            return false;
        }
        i += 1;
    }
    assert(text::texts(a@) =~= text::texts(b@));
    true
}

/// Decides what is to be done about an event. The printers are reported when the
/// connection was made, and again only where they have changed.
pub fn connection_step(station: &str, connection: &mut Connection, event: ConnectionEvent) -> (r:
    ConnectionAction)
    ensures
        is_answer(
            r,
            old(connection).phase,
            text::texts(old(connection).known@),
            event,
            station@,
        ),
        final(connection).phase == phase_after(old(connection).phase, event),
        text::texts(final(connection).known@) == known_after(
            old(connection).phase,
            text::texts(old(connection).known@),
            event,
        ),
{
    match connection.phase {
        Phase::New => match event {
            ConnectionEvent::Opened(printers) => {
                let message = hello_message(station, &printers);
                connection.known = printers;
                connection.phase = Phase::Greeting;
                ConnectionAction::Send(message)
            },
            _ => ConnectionAction::Nothing,
        },
        Phase::Greeting => match event {
            ConnectionEvent::Sent => {
                connection.phase = Phase::Open;
                ConnectionAction::Connected
            },
            ConnectionEvent::NotSent(error) => ConnectionAction::Fail(error),
            _ => ConnectionAction::Nothing,
        },
        Phase::Open => match event {
            ConnectionEvent::Printers(printers) => {
                if same_list(&printers, &connection.known) {
                    ConnectionAction::Nothing
                } else {
                    let message = hello_message(station, &printers);
                    connection.known = printers;
                    ConnectionAction::Send(message)
                }
            },
            ConnectionEvent::Outgoing(message) => ConnectionAction::Send(message),
            ConnectionEvent::Text(message) => ConnectionAction::Route(message),
            ConnectionEvent::Ping(bytes) => ConnectionAction::Pong(bytes),
            ConnectionEvent::Failed(error) => ConnectionAction::Fail(error),
            ConnectionEvent::Closed => ConnectionAction::Stop,
            ConnectionEvent::NoMore => ConnectionAction::Stop,
            ConnectionEvent::NotSent(_) => ConnectionAction::Stop,
            ConnectionEvent::Opened(_) => ConnectionAction::Nothing,
            ConnectionEvent::Sent => ConnectionAction::Nothing,
            ConnectionEvent::Other => ConnectionAction::Nothing,
        },
    }
}

/// How far a connection has come after these events.
pub open spec fn phase_of(events: Seq<ConnectionEvent>) -> Phase
    decreases events.len(),
{
    if events.len() == 0 {
        Phase::New
    } else {
        phase_after(phase_of(events.drop_last()), events.last())
    }
}

/// The printers that were reported last, after these events.
pub open spec fn known_of(events: Seq<ConnectionEvent>) -> Seq<Seq<char>>
    decreases events.len(),
{
    if events.len() == 0 {
        seq![]
    } else {
        known_after(phase_of(events.drop_last()), known_of(events.drop_last()), events.last())
    }
}

/// The lists of printers that were reported in the course of these events.
pub open spec fn hellos(events: Seq<ConnectionEvent>) -> Seq<Seq<Seq<char>>>
    decreases events.len(),
{
    if events.len() == 0 {
        seq![]
    } else {
        let before = events.drop_last();
        match reported(phase_of(before), known_of(before), events.last()) {
            Some(printers) => hellos(before).push(printers),
            None => hellos(before),
        }
    }
}

/// The texts that were sent in the course of these events.
pub open spec fn sends(station: Seq<char>, events: Seq<ConnectionEvent>) -> Seq<Seq<char>>
    decreases events.len(),
{
    if events.len() == 0 {
        seq![]
    } else {
        let before = events.drop_last();
        match sent(phase_of(before), known_of(before), events.last(), station) {
            Some(message) => sends(station, before).push(message),
            None => sends(station, before),
        }
    }
}

/// The first text that a connection sends reports the printers that were there when it
/// was made, and the client counts as connected only once that text was sent.
#[verifier::rlimit(40)]
pub proof fn greeting_comes_first(station: Seq<char>, events: Seq<ConnectionEvent>)
    ensures
        phase_of(events) == Phase::New <==> sends(station, events).len() == 0,
        phase_of(events) == Phase::New <==> hellos(events).len() == 0,
        phase_of(events) != Phase::New ==> sends(station, events)[0] == json::compact(
            hello(station, hellos(events)[0]),
        ),
        phase_of(events) != Phase::New ==> exists|i: int|
            0 <= i < events.len() && (#[trigger] events[i] matches ConnectionEvent::Opened(printers)
                && text::texts(printers@) == hellos(events)[0] && phase_of(events.take(i))
                == Phase::New),
        phase_of(events) == Phase::Open ==> exists|i: int|
            0 <= i < events.len() && #[trigger] events[i] is Sent && phase_of(events.take(i))
                == Phase::Greeting,
    decreases events.len(),
{
    if events.len() > 0 {
        let before = events.drop_last();
        let last = events.len() - 1;
        greeting_comes_first(station, before);
        assert(events.take(last) =~= before);
        assert(events[last] == events.last());
        if phase_of(before) != Phase::New {
            let i = choose|i: int|
                0 <= i < before.len() && (#[trigger] before[i] matches ConnectionEvent::Opened(
                    printers,
                ) && text::texts(printers@) == hellos(before)[0] && phase_of(before.take(i))
                    == Phase::New);
            assert(events[i] == before[i]);
            assert(events.take(i) =~= before.take(i));
        }
        if phase_of(before) == Phase::Open {
            let i = choose|i: int|
                0 <= i < before.len() && #[trigger] before[i] is Sent && phase_of(before.take(i))
                    == Phase::Greeting;
            assert(events[i] == before[i]);
            assert(events.take(i) =~= before.take(i));
        }
    }
}

/// No list of printers is reported twice in a row.
pub proof fn reports_differ(events: Seq<ConnectionEvent>, i: int)
    requires
        0 <= i < hellos(events).len() - 1,
    ensures
        hellos(events)[i] != hellos(events)[i + 1],
    decreases events.len(),
{
    let before = events.drop_last();
    last_report_is_known(before);
    if i < hellos(before).len() - 1 {
        reports_differ(before, i);
    }
}

/// The list of printers that was reported last is the one that is compared with.
proof fn last_report_is_known(events: Seq<ConnectionEvent>)
    ensures
        phase_of(events) == Phase::New <==> hellos(events).len() == 0,
        hellos(events).len() > 0 ==> hellos(events).last() == known_of(events),
    decreases events.len(),
{
    if events.len() > 0 {
        last_report_is_known(events.drop_last());
    }
}

/// A ping on an open connection is answered with its own bytes.
pub proof fn pings_are_answered(
    action: ConnectionAction,
    known: Seq<Seq<char>>,
    bytes: Vec<u8>,
    station: Seq<char>,
)
    requires
        is_answer(action, Phase::Open, known, ConnectionEvent::Ping(bytes), station),
    ensures
        action == ConnectionAction::Pong(bytes),
{
}

// ---------------------------------------------------------------------------
// What the machine says of itself
// ---------------------------------------------------------------------------

/// The first value of a line of comma separated values, without its quotes.
pub open spec fn first_value(line: Seq<char>) -> Seq<char> {
    text::trim_char(text::trim(text::split(line, seq![','])[0]), '"')
}

/// The address of a network card: seventeen bytes that are not `N/A`.
pub open spec fn is_mac(value: Seq<char>) -> bool {
    vstd::utf8::encode_utf8(value).len() == 17 && value != "N/A"@
}

/// The first address of a network card that the lines hold.
pub open spec fn first_mac(lines: Seq<Seq<char>>) -> Option<Seq<char>>
    decreases lines.len(),
{
    if lines.len() == 0 {
        None
    } else if is_mac(first_value(lines[0])) {
        Some(first_value(lines[0]))
    } else {
        first_mac(lines.skip(1))
    }
}

/// The address of the network card in the output of `getmac`; nothing where it failed.
pub fn mac_from_output(success: bool, stdout: &[u8]) -> (r: Option<String>)
    ensures
        text::text_option(r) == (if success {
            first_mac(text::lines(text::lossy_text(stdout@)))
        } else {
            None
        }),
{
    if !success {
        return None;
    }
    let chars = chars_of(text_of_bytes(stdout).as_str());
    let rows = lines_of(chars.as_slice());
    let comma: Vec<char> = vec![','];
    assert(comma@ =~= seq![',']);
    let ghost all = text::lines(chars@);
    let mut i: usize = 0;
    assert(all.skip(0) =~= all);
    while i < rows.len()
        invariant
            success,
            comma@ == seq![','],
            all == text::lines(text::lossy_text(stdout@)),
            text::pieces(rows@) == all,
            i <= rows@.len(),
            first_mac(all.skip(i as int)) == first_mac(all),
        decreases rows@.len() - i,
    {
        assert(all.len() == rows@.len());
        assert(all.skip(i as int)[0] == rows@[i as int]@);
        assert(all.skip(i as int).skip(1) =~= all.skip(i + 1));
        let values = split_on(rows[i].as_slice(), comma.as_slice());
        assert(text::split(rows@[i as int]@, seq![','])[0] == values@[0]@);
        let value = string_of(trimmed_of(trimmed(values[0].as_slice()), '"'));
        if value.as_str().as_bytes().len() == 17 && !same_str(value.as_str(), "N/A") {
            return Some(value);
        }
        i += 1;
    }
    assert(all.skip(i as int) =~= seq![]);
    None
}

/// The lines that hold something, without white space at their ends.
pub open spec fn filled_lines(lines: Seq<Seq<char>>) -> Seq<Seq<char>>
    decreases lines.len(),
{
    if lines.len() == 0 {
        seq![]
    } else if text::trim(lines.last()).len() == 0 {
        filled_lines(lines.drop_last())
    } else {
        filled_lines(lines.drop_last()).push(text::trim(lines.last()))
    }
}

/// The names of the printers in the output of a listing, one on each line; none where
/// it failed.
pub fn printers_from_output(success: bool, stdout: &[u8]) -> (r: Vec<String>)
    ensures
        text::texts(r@) == (if success {
            filled_lines(text::lines(text::lossy_text(stdout@)))
        } else {
            seq![]
        }),
{
    let mut r: Vec<String> = Vec::new();
    assert(text::texts(r@) =~= seq![]);
    if !success {
        return r;
    }
    let chars = chars_of(text_of_bytes(stdout).as_str());
    let rows = lines_of(chars.as_slice());
    let ghost all = text::lines(chars@);
    let mut i: usize = 0;
    assert(all.take(0) =~= seq![]);
    while i < rows.len()
        invariant
            text::pieces(rows@) == all,
            i <= rows@.len(),
            text::texts(r@) == filled_lines(all.take(i as int)),
        decreases rows@.len() - i,
    {
        assert(all.len() == rows@.len());
        assert(all[i as int] == rows@[i as int]@);
        assert(all.take(i + 1).drop_last() =~= all.take(i as int));
        let ghost before = text::texts(r@);
        let name = trimmed(rows[i].as_slice());
        if name.len() > 0 {
            r.push(string_of(name));
            assert(text::texts(r@) =~= before.push(name@));
        }
        i += 1;
    }
    assert(all.take(i as int) =~= all);
    r
}

// ---------------------------------------------------------------------------
// What is said over the connection
// ---------------------------------------------------------------------------

/// What is held says what its fields hold, one by one.
pub proof fn fields_say_what_they_hold(
    outcome: RenderOutcome,
    state: ClientState,
    message: String,
    id: String,
)
    ensures
        outcome@.png == outcome.png@,
        outcome@.script == outcome.script@,
        outcome@.printer == outcome.printer@,
        outcome@.printer_source == outcome.printer_source@,
        state@.connected == state.connected,
        state@.process_id == state.process_id,
        state@.next_job == state.next_job,
        state@.pending == state.pending@,
        outcome_result(Ok(outcome)) == Ok::<OutcomeView, Seq<char>>(outcome@),
        outcome_result(Err(message)) == Err::<OutcomeView, Seq<char>>(message@),
        response_result(Some((id, Ok(outcome)))) == Some(
            (id@, Ok::<OutcomeView, Seq<char>>(outcome@)),
        ),
        response_result(Some((id, Err(message)))) == Some(
            (id@, Err::<OutcomeView, Seq<char>>(message@)),
        ),
        response_result(None) is None,
        ask_result(Ok((id, message))) == Ok::<(Seq<char>, Seq<char>), Seq<char>>((id@, message@)),
        ask_result(Err(message)) == Err::<(Seq<char>, Seq<char>), Seq<char>>(message@),
        print_outcome(Ok(())) is Ok,
        print_outcome(Err(message)) == Err::<(), Seq<char>>(message@),
{
}

/// A response of the service to a label that it rendered carries the picture, the script and
/// the printer under their names, and the job that it answers.
pub proof fn rendered_labels_are_read(
    message: Seq<char>,
    m: Map<Seq<char>, JsonView>,
    id: Seq<char>,
    encoded: Seq<char>,
    png: Seq<u8>,
    script: Seq<char>,
    printer: Seq<char>,
    source: Seq<char>,
)
    requires
        json::document(message) == Ok::<JsonView, Seq<char>>(JsonView::Object(m)),
        context::holds_text(m, "type"@, "render_ok"@),
        context::holds_text(m, "job_id"@, id),
        context::holds_text(m, "png_base64"@, encoded),
        context::holds_text(m, "print_script"@, script),
        codec::base64_bytes(encoded) == Ok::<Seq<u8>, Seq<char>>(png),
    ensures
        response_in(message) matches Some((answered_id, Ok(outcome))) && {
            &&& answered_id == id
            &&& outcome.png == png
            &&& outcome.script == script
            &&& context::holds_text(m, "printer"@, printer) ==> outcome.printer == printer
            &&& !m.contains_key("printer"@) ==> outcome.printer.len() == 0
            &&& context::holds_text(m, "printer_source"@, source) ==> outcome.printer_source
                == source
            &&& !m.contains_key("printer_source"@) ==> outcome.printer_source == "agent"@
        },
{
}

/// A response to a label that was not rendered carries the reason; one that says that a label
/// was rendered but lacks the picture or the script fails; and a message of another kind
/// answers nothing.
pub proof fn failed_labels_are_read(
    message: Seq<char>,
    m: Map<Seq<char>, JsonView>,
    id: Seq<char>,
    error: Seq<char>,
    kind: Seq<char>,
    refused: Seq<char>,
)
    requires
        context::holds_text(m, "job_id"@, id),
        context::holds_text(m, "type"@, kind),
    ensures
        ({
            let said = json::document(message) == Ok::<JsonView, Seq<char>>(JsonView::Object(m));
            &&& said && kind == "render_err"@ && context::holds_text(m, "error"@, error)
                ==> response_in(message) == Some((id, Err::<OutcomeView, Seq<char>>(error)))
            &&& said && kind == "render_err"@ && !m.contains_key("error"@) ==> response_in(message)
                == Some((id, Err::<OutcomeView, Seq<char>>("渲染失败"@)))
            &&& said && kind == "render_ok"@ && (!m.contains_key("png_base64"@) || !m.contains_key(
                "print_script"@,
            )) ==> response_in(message) == Some(
                (id, Err::<OutcomeView, Seq<char>>("渲染结果缺少 png_base64 或 print_script"@)),
            )
            &&& said && kind != "render_ok"@ && kind != "render_err"@ ==> response_in(
                message,
            ) is None
            &&& json::document(message) == Err::<JsonView, Seq<char>>(refused) ==> response_in(
                message,
            ) is None
        }),
{
    reveal_strlit("render_ok");
    reveal_strlit("render_err");
    assert("render_ok"@.len() != "render_err"@.len());
}

/// A connected client asks for labels with a message that names the kind, the job, the
/// template, the labels and the printer; the job is noted, and jobs are counted. A client
/// that is not connected asks for nothing.
pub proof fn labels_are_asked_for_by_name(
    v: ClientView,
    url: Seq<char>,
    labels: Seq<JsonView>,
    template: Option<Seq<char>>,
    printer: Seq<char>,
    other: Seq<char>,
)
    ensures
        v.connected ==> {
            let (after, r) = asked(v, url, labels, template, printer);
            let id = decimal::decimal(v.process_id as int) + seq!['-'] + decimal::decimal(
                v.next_job as int,
            );
            &&& r matches Ok((told_id, message)) && told_id == id && exists|
                m: Map<Seq<char>, JsonView>,
            |
                #![trigger json::compact(JsonView::Object(m))]
                {
                    &&& message == json::compact(JsonView::Object(m))
                    &&& context::holds_text(m, "type"@, "render"@)
                    &&& context::holds_text(m, "job_id"@, id)
                    &&& context::holds_text(m, "printer"@, printer)
                    &&& m.contains_key("labels"@) && m["labels"@] == JsonView::Array(labels)
                    &&& m.contains_key("template"@)
                    &&& template matches Some(t) ==> m["template"@] == JsonView::Text(t)
                    &&& template is None ==> m["template"@] == JsonView::Null
                }
            &&& after.connected
            &&& after.process_id == v.process_id
            &&& v.next_job < u64::MAX ==> after.next_job == v.next_job + 1
            &&& after.pending.contains_key(id)
            &&& other != id ==> after.pending.contains_key(other) == v.pending.contains_key(other)
        },
        !v.connected ==> asked(v, url, labels, template, printer) == (v, Err::<
            (Seq<char>, Seq<char>),
            Seq<char>,
        >("未连接到 qr_service（"@ + url + "），请检查服务器地址与网络"@)),
{
    keys_of_reports_differ();
    reveal_strlit("-");
    assert("-"@ =~= seq!['-']);
    let id = job_id(v.process_id, v.next_job);
    let m = render_message(id, template, labels, printer)->Object_0;
    assert(context::holds_text(m, "type"@, "render"@));
    assert(JsonView::Object(m) == render_message(id, template, labels, printer));
}

/// An agent reports its station and its printers, in order, under these names.
pub proof fn reports_name_the_printers(station: Seq<char>, printers: Seq<Seq<char>>, i: int)
    ensures
        hello(station, printers) matches JsonView::Object(m) && {
            &&& context::holds_text(m, "type"@, "hello"@)
            &&& context::holds_text(m, "station"@, station)
            &&& m.contains_key("printers"@)
            &&& m["printers"@] matches JsonView::Array(items) && items.len() == printers.len() && (
            0 <= i < printers.len() ==> items[i] == JsonView::Text(printers[i]))
        },
{
    keys_of_reports_differ();
}

/// An agent reports how a print ended under these names: whether it went well, and if not,
/// why.
pub proof fn reports_name_the_print(
    id: Seq<char>,
    printer: Seq<char>,
    result: Result<(), Seq<char>>,
)
    ensures
        print_result(id, printer, result) matches JsonView::Object(m) && {
            &&& context::holds_text(m, "type"@, "print_result"@)
            &&& context::holds_text(m, "job_id"@, id)
            &&& context::holds_text(m, "printer"@, printer)
            &&& m.contains_key("ok"@) && m.contains_key("error"@)
            &&& m["ok"@] == JsonView::Bool(result is Ok)
            &&& result is Ok ==> m["error"@] == JsonView::Null
            &&& result matches Err(error) ==> m["error"@] == JsonView::Text(error)
        },
{
    keys_of_reports_differ();
}

/// A response is given to the job that it names, where that job waits, and to no other; the
/// job then waits no more and every other one still does.
pub proof fn responses_go_to_their_job(
    v: ClientView,
    message: Seq<char>,
    id: Seq<char>,
    outcome: Result<OutcomeView, Seq<char>>,
    other: Seq<char>,
)
    ensures
        response_in(message) == Some((id, outcome)) && v.pending.contains_key(id) ==> {
            let (after, told) = answered(v, message);
            &&& told == Some((id, outcome))
            &&& !after.pending.contains_key(id)
            &&& other != id ==> after.pending.contains_key(other) == v.pending.contains_key(other)
            &&& after.connected == v.connected
            &&& after.next_job == v.next_job
            &&& after.process_id == v.process_id
        },
        response_in(message) == Some((id, outcome)) && !v.pending.contains_key(id) ==> answered(
            v,
            message,
        ) == (v, None::<(Seq<char>, Result<OutcomeView, Seq<char>>)>),
        response_in(message) is None ==> answered(v, message) == (v, None::<
            (Seq<char>, Result<OutcomeView, Seq<char>>),
        >),
{
}

/// The wait for a label ends with the answer, or with the reason why there is none.
pub proof fn waits_end_with_the_answer(outcome: RenderOutcome, error: String)
    ensures
        wait_outcome(Wait::Answered(Ok(outcome))) == Ok::<OutcomeView, Seq<char>>(outcome@),
        wait_outcome(Wait::Answered(Err(error))) == Err::<OutcomeView, Seq<char>>(error@),
        wait_outcome(Wait::Closed) == Err::<OutcomeView, Seq<char>>("渲染结果通道已关闭"@),
        wait_outcome(Wait::TimedOut) == Err::<OutcomeView, Seq<char>>("渲染超时（30 秒）"@),
{
}

/// An agent connects to the address of the service with its station and the address of its
/// network card behind it.
pub proof fn address_names_the_station(
    url: Seq<char>,
    station: Seq<char>,
    mac: Seq<char>,
)
    ensures
        address(url, station, Some(mac)) == url + "?station="@ + station + "&mac="@ + mac,
        address(url, station, None) == url + "?station="@ + station + "&mac="@,
{
    assert(url + "?station="@ + station + "&mac="@ + seq![] =~= url + "?station="@ + station
        + "&mac="@);
}

/// What is done about an event on a connection. On one that was just made the printers are
/// reported; once that was sent, the client counts as connected; then messages are sent as
/// they come, texts are taken, and printers are reported where they have changed.
pub proof fn events_are_answered(
    action: ConnectionAction,
    known: Seq<Seq<char>>,
    station: Seq<char>,
    printers: Vec<String>,
    message: String,
)
    ensures
        is_answer(action, Phase::New, known, ConnectionEvent::Opened(printers), station)
            ==> (action matches ConnectionAction::Send(m) && m@ == json::compact(
            hello(station, text::texts(printers@)),
        )),
        is_answer(action, Phase::Greeting, known, ConnectionEvent::Sent, station)
            ==> action is Connected,
        is_answer(action, Phase::Greeting, known, ConnectionEvent::NotSent(message), station)
            ==> action == ConnectionAction::Fail(message),
        is_answer(action, Phase::Open, known, ConnectionEvent::Outgoing(message), station)
            ==> (action matches ConnectionAction::Send(m) && m@ == message@),
        is_answer(action, Phase::Open, known, ConnectionEvent::Text(message), station)
            ==> action == ConnectionAction::Route(message),
        is_answer(action, Phase::Open, known, ConnectionEvent::Failed(message), station)
            ==> action == ConnectionAction::Fail(message),
        is_answer(action, Phase::Open, known, ConnectionEvent::Closed, station)
            ==> action is Stop,
        is_answer(action, Phase::Open, known, ConnectionEvent::NoMore, station)
            ==> action is Stop,
        is_answer(action, Phase::Open, known, ConnectionEvent::NotSent(message), station)
            ==> action is Stop,
        is_answer(action, Phase::Open, known, ConnectionEvent::Other, station)
            ==> action is Nothing,
        is_answer(action, Phase::Open, known, ConnectionEvent::Printers(printers), station)
            && text::texts(printers@) == known ==> action is Nothing,
        is_answer(action, Phase::Open, known, ConnectionEvent::Printers(printers), station)
            && text::texts(printers@) != known ==> (action matches ConnectionAction::Send(m) && m@
            == json::compact(hello(station, text::texts(printers@)))),
        phase_after(Phase::New, ConnectionEvent::Opened(printers)) == Phase::Greeting,
        phase_after(Phase::Greeting, ConnectionEvent::Sent) == Phase::Open,
        phase_after(Phase::Open, ConnectionEvent::Printers(printers)) == Phase::Open,
        phase_after(Phase::Open, ConnectionEvent::Text(message)) == Phase::Open,
        known_after(Phase::New, known, ConnectionEvent::Opened(printers)) == text::texts(
            printers@,
        ),
        known_after(Phase::Open, known, ConnectionEvent::Printers(printers)) == text::texts(
            printers@,
        ),
        known_after(Phase::Open, known, ConnectionEvent::Text(message)) == known,
{
}

/// The first value of a line is what stands before its first comma, without quotes around
/// it.
pub proof fn first_values_are_read(value: Seq<char>, rest: Seq<char>)
    requires
        value.len() > 0,
        text::lacks(value, ','),
        text::lacks(value, '"'),
    ensures
        first_value(seq!['"'] + value + seq!['"', ','] + rest) == value,
{
    let quoted = seq!['"'] + value + seq!['"'];
    let line = seq!['"'] + value + seq!['"', ','] + rest;
    assert(line =~= quoted + seq![','] + rest);
    assert(text::lacks(quoted, ','));
    text::first_behind(quoted, ',', rest);
    assert(text::split(line, seq![','])[0] == quoted);
    text::white_space_is_not_printed('"');
    text::trimming_keeps_the_core(quoted);
    let inner = value + seq!['"'];
    assert(quoted.skip(1) =~= inner);
    assert(text::only('"')(quoted[0]));
    assert(!text::only('"')(inner[0]));
    assert(text::trim_start(quoted, text::only('"')) == inner) by {
        reveal_with_fuel(text::trim_start, 2);
    }
    assert(inner.take(inner.len() - 1) =~= value);
    assert(text::only('"')(inner[inner.len() - 1]));
    assert(!text::only('"')(value[value.len() - 1]));
    assert(text::trim_end(inner, text::only('"')) == value) by {
        reveal_with_fuel(text::trim_end, 2);
    }
}

/// The address of the network card is the first value of the first line that has one: an
/// address of seventeen bytes. Lines before it have none.
pub proof fn first_address_is_taken(lines: Seq<Seq<char>>, i: int)
    requires
        0 <= i < lines.len(),
        vstd::utf8::encode_utf8(first_value(lines[i])).len() == 17,
        first_value(lines[i]) != "N/A"@,
        forall|j: int|
            0 <= j < i ==> vstd::utf8::encode_utf8(first_value(#[trigger] lines[j])).len() != 17,
    ensures
        first_mac(lines) == Some(first_value(lines[i])),
    decreases i,
{
    if i > 0 {
        let rest = lines.skip(1);
        assert(vstd::utf8::encode_utf8(first_value(lines[0])).len() != 17);
        assert(rest[i - 1] == lines[i]);
        assert forall|j: int| 0 <= j < i - 1 implies vstd::utf8::encode_utf8(
            first_value(#[trigger] rest[j]),
        ).len() != 17 by {
            assert(rest[j] == lines[j + 1]);
        }
        first_address_is_taken(rest, i - 1);
    }
}

/// The printers are the lines that hold something, each without white space at its ends, in
/// order; and every such line is there.
pub proof fn printers_are_the_filled_lines(lines: Seq<Seq<char>>)
    ensures
        (forall|i: int|
            0 <= i < lines.len() ==> (#[trigger] lines[i]).len() > 0 && text::trim(lines[i])
                == lines[i]) ==> filled_lines(lines) == lines,
        forall|k: int|
            0 <= k < filled_lines(lines).len() ==> (#[trigger] filled_lines(lines)[k]).len() > 0,
        lines.len() > 0 && text::trim(lines.last()).len() > 0 ==> filled_lines(lines)
            == filled_lines(lines.drop_last()).push(text::trim(lines.last())),
        lines.len() > 0 && text::trim(lines.last()).len() == 0 ==> filled_lines(lines)
            == filled_lines(lines.drop_last()),
    decreases lines.len(),
{
    if lines.len() > 0 {
        let front = lines.drop_last();
        printers_are_the_filled_lines(front);
        if forall|i: int|
            0 <= i < lines.len() ==> (#[trigger] lines[i]).len() > 0 && text::trim(lines[i])
                == lines[i] {
            assert forall|i: int| 0 <= i < front.len() implies (#[trigger] front[i]).len() > 0
                && text::trim(front[i]) == front[i] by {
                assert(front[i] == lines[i]);
            }
            assert(lines[lines.len() - 1] == lines.last());
            assert(filled_lines(lines) =~= lines);
        }
    } else {
        assert(filled_lines(lines) =~= lines);
    }
}

/// An answer with its picture decoded holds that picture, the script and the printer; one
/// that lacks the picture or the script fails, and one of another kind answers nothing.
pub proof fn answers_hold_their_picture(
    m: Map<Seq<char>, JsonView>,
    png: Seq<u8>,
    script: Seq<char>,
    printer: Seq<char>,
    source: Seq<char>,
    error: Seq<char>,
    kind: Seq<char>,
)
    requires
        context::holds_text(m, "type"@, kind),
    ensures
        ({
            let v = JsonView::Object(m);
            let missing = Some(
                Err::<OutcomeView, Seq<char>>("渲染结果缺少 png_base64 或 print_script"@),
            );
            &&& kind == "render_ok"@ && context::holds_text(m, "print_script"@, script)
                && context::holds_text(m, "printer"@, printer) && context::holds_text(
                m,
                "printer_source"@,
                source,
            ) ==> outcome_with(v, Some(png)) == Some(
                Ok::<OutcomeView, Seq<char>>(
                    OutcomeView { png, script, printer, printer_source: source },
                ),
            )
            &&& kind == "render_ok"@ ==> outcome_with(v, None) == missing
            &&& kind == "render_ok"@ && !m.contains_key("print_script"@) ==> outcome_with(
                v,
                Some(png),
            ) == missing
            &&& kind == "render_err"@ && context::holds_text(m, "error"@, error) ==> outcome_with(
                v,
                Some(png),
            ) == Some(Err::<OutcomeView, Seq<char>>(error))
            &&& kind == "render_err"@ && !m.contains_key("error"@) ==> outcome_with(v, Some(png))
                == Some(Err::<OutcomeView, Seq<char>>("渲染失败"@))
            &&& kind != "render_ok"@ && kind != "render_err"@ ==> outcome_with(v, Some(png)) is None
        }),
{
    reveal_strlit("render_ok");
    reveal_strlit("render_err");
    assert("render_ok"@.len() != "render_err"@.len());
}

/// A text that may be absent is written as it is, or as nothing.
pub proof fn optional_texts_are_written(s: Seq<char>)
    ensures
        optional(Some(s)) == JsonView::Text(s),
        optional(None) == JsonView::Null,
{
}

} // verus!
