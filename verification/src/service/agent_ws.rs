//! The print agents that are connected to the service: who they are, what they ask
//! for, and what they are answered.
use vstd::prelude::*;

use crate::agent::ws_client;
use crate::agent::ws_client::OutcomeView;
use crate::codec;
use crate::codec::encode_base64;
use crate::context;
use crate::err;
use crate::err::{CustomError, ErrorView, other_error_with};
use crate::json;
use crate::json::{Json, JsonView, add_text};
use crate::service::print_script;
use crate::service::print_script::{PrintOverrides, build_print_script};
use crate::service::template_store;
use crate::service::template_store::{AgentSettings, PaperLength, SettingsView};
use crate::text;
use crate::text::trimmed_str;
use crate::text_map;
use crate::text_map::TextMap;

verus! {

/// A message of a print agent.
pub enum AgentMessage {
    /// A request for labels.
    Render {
        job_id: String,
        template: Option<String>,
        labels: Vec<Json>,
        /// The printer of the agent's configuration or of the request; the default
        /// printer of the system where absent.
        printer: Option<String>,
    },
    /// The printers of the agent's machine.
    Hello { printers: Vec<String> },
    /// How a print ended.
    PrintResult { job_id: String, ok: bool, error: Option<String> },
}

/// What a message of a print agent says.
pub enum MessageView {
    Render {
        job_id: Seq<char>,
        template: Option<Seq<char>>,
        labels: Seq<JsonView>,
        printer: Option<Seq<char>>,
    },
    Hello { printers: Seq<Seq<char>> },
    PrintResult { job_id: Seq<char>, ok: bool, error: Option<Seq<char>> },
}

impl View for AgentMessage {
    type V = MessageView;

    open spec fn view(&self) -> MessageView {
        match *self {
            AgentMessage::Render { job_id, template, labels, printer } => MessageView::Render {
                job_id: job_id@,
                template: text::text_option(template),
                labels: json::views(labels@),
                printer: text::text_option(printer),
            },
            AgentMessage::Hello { printers } => MessageView::Hello {
                printers: text::texts(printers@),
            },
            AgentMessage::PrintResult { job_id, ok, error } => MessageView::PrintResult {
                job_id: job_id@,
                ok,
                error: text::text_option(error),
            },
        }
    }
}

/// A text that may be absent: nothing where the field holds something else.
pub open spec fn optional_in(v: JsonView, key: Seq<char>) -> Option<Option<Seq<char>>> {
    match json::field(v, key) {
        None => Some(None),
        Some(JsonView::Null) => Some(None),
        Some(JsonView::Text(s)) => Some(Some(s)),
        _ => None,
    }
}

/// Every item is a text.
pub open spec fn are_texts(items: Seq<JsonView>) -> bool {
    forall|i: int| 0 <= i < items.len() ==> (#[trigger] items[i]) is Text
}

/// The texts of an array of texts.
pub open spec fn texts_in(v: JsonView, key: Seq<char>) -> Option<Seq<Seq<char>>> {
    match json::field(v, key) {
        Some(JsonView::Array(items)) => if are_texts(items) {
            Some(items.map_values(|j: JsonView| j->Text_0))
        } else {
            None
        },
        _ => None,
    }
}

/// What an object says as a message of a print agent; nothing where it is none.
pub open spec fn message_in(v: JsonView) -> Option<MessageView> {
    match json::text_field(v, "type"@) {
        None => None,
        Some(kind) => if kind == "render"@ {
            match (
                json::text_field(v, "job_id"@),
                optional_in(v, "template"@),
                json::field(v, "labels"@),
                optional_in(v, "printer"@),
            ) {
                (
                    Some(job_id),
                    Some(template),
                    Some(JsonView::Array(labels)),
                    Some(printer),
                ) => Some(MessageView::Render { job_id, template, labels, printer }),
                _ => None,
            }
        } else if kind == "hello"@ {
            match texts_in(v, "printers"@) {
                Some(printers) => Some(MessageView::Hello { printers }),
                None => None,
            }
        } else if kind == "print_result"@ {
            match (
                json::text_field(v, "job_id"@),
                json::field(v, "ok"@),
                optional_in(v, "error"@),
            ) {
                (Some(job_id), Some(JsonView::Bool(ok)), Some(error)) => Some(
                    MessageView::PrintResult { job_id, ok, error },
                ),
                _ => None,
            }
        } else {
            None
        },
    }
}

/// What a text with such an object says; nothing where it is none.
pub open spec fn message_of(message: Seq<char>) -> Option<MessageView> {
    match json::document(message) {
        Ok(v) => message_in(v),
        Err(_) => None,
    }
}

// ---------------------------------------------------------------------------
// Answers
// ---------------------------------------------------------------------------

/// What print scripts are made from: the configured template file, where there is
/// one, and the configured paper, in hundredths of an inch.
pub struct ScriptSource {
    pub file: Option<String>,
    pub paper_width: i32,
    pub paper_height: i32,
}

/// The name of a printer; empty for the default printer of the system.
pub open spec fn printer_name(printer: Option<Seq<char>>) -> Seq<char> {
    match printer {
        Some(name) => name,
        None => seq![],
    }
}

/// The script that an agent is sent.
pub open spec fn script_for(
    printer: Option<Seq<char>>,
    overrides: PrintOverrides,
    source: ScriptSource,
) -> Seq<char> {
    print_script::filled(
        print_script::chosen_template(text::text_option(source.file)),
        printer_name(printer),
        print_script::values_of(overrides, source.paper_width, source.paper_height),
    )
}

/// Where the name of the printer comes from.
pub open spec fn printer_source(settings: SettingsView) -> Seq<char> {
    if settings.printer is Some {
        "server"@
    } else {
        "agent"@
    }
}

/// The answer to a request whose labels were rendered.
pub open spec fn ok_message(job_id: Seq<char>, outcome: OutcomeView) -> JsonView {
    JsonView::Object(
        json::no_fields().insert("type"@, JsonView::Text("render_ok"@)).insert(
            "job_id"@,
            JsonView::Text(job_id),
        ).insert("png_base64"@, JsonView::Text(codec::base64_text(outcome.png))).insert(
            "print_script"@,
            JsonView::Text(outcome.script),
        ).insert("printer"@, JsonView::Text(outcome.printer)).insert(
            "printer_source"@,
            JsonView::Text(outcome.printer_source),
        ),
    )
}

/// The answer to a request whose labels were not rendered.
pub open spec fn err_message(job_id: Seq<char>, error: Seq<char>) -> JsonView {
    JsonView::Object(
        json::no_fields().insert("type"@, JsonView::Text("render_err"@)).insert(
            "job_id"@,
            JsonView::Text(job_id),
        ).insert("error"@, JsonView::Text(error)),
    )
}

/// What an agent is sent of labels that were rendered.
pub open spec fn outcome_for(
    png: Seq<u8>,
    printer: Option<Seq<char>>,
    settings: SettingsView,
    overrides: PrintOverrides,
    source: ScriptSource,
) -> OutcomeView {
    OutcomeView {
        png,
        script: script_for(printer, overrides, source),
        printer: printer_name(printer),
        printer_source: printer_source(settings),
    }
}

proof fn keys_of_answers_differ()
    ensures
        "type"@ != "job_id"@,
        "type"@ != "png_base64"@,
        "type"@ != "print_script"@,
        "type"@ != "printer"@,
        "type"@ != "printer_source"@,
        "type"@ != "error"@,
        "job_id"@ != "png_base64"@,
        "job_id"@ != "print_script"@,
        "job_id"@ != "printer"@,
        "job_id"@ != "printer_source"@,
        "job_id"@ != "error"@,
        "png_base64"@ != "print_script"@,
        "png_base64"@ != "printer"@,
        "png_base64"@ != "printer_source"@,
        "print_script"@ != "printer"@,
        "print_script"@ != "printer_source"@,
        "printer"@ != "printer_source"@,
        "render_ok"@ != "render_err"@,
        json::RAW_KEY@ != "type"@,
        json::RAW_KEY@ != "job_id"@,
        json::RAW_KEY@ != "png_base64"@,
        json::RAW_KEY@ != "print_script"@,
        json::RAW_KEY@ != "printer"@,
        json::RAW_KEY@ != "printer_source"@,
        json::RAW_KEY@ != "error"@,
{
    json::raw_key_is_long();
    reveal_strlit("type");
    reveal_strlit("job_id");
    reveal_strlit("png_base64");
    reveal_strlit("print_script");
    reveal_strlit("printer");
    reveal_strlit("printer_source");
    reveal_strlit("error");
    reveal_strlit("render_ok");
    reveal_strlit("render_err");
    assert("type"@.len() == 4 && "job_id"@.len() == 6 && "png_base64"@.len() == 10);
    assert("print_script"@.len() == 12 && "printer"@.len() == 7 && "printer_source"@.len() == 14);
    assert("error"@.len() == 5 && "render_ok"@.len() == 9 && "render_err"@.len() == 10);
}

/// The answer to a request whose labels were rendered: the picture, the script that
/// prints it, and the printer. An agent reads back from it what was put in.
pub fn render_ok(
    job_id: &str,
    png: &[u8],
    printer: Option<&str>,
    settings: &AgentSettings,
    overrides: &PrintOverrides,
    source: &ScriptSource,
) -> (r: String)
    ensures
        ({
            let name = match printer {
                Some(name) => Some(name@),
                None => None,
            };
            let outcome = outcome_for(png@, name, settings@, *overrides, *source);
            &&& r@ == json::compact(ok_message(job_id@, outcome))
            &&& ws_client::response_in(r@) == Some(
                (job_id@, Ok::<OutcomeView, Seq<char>>(outcome)),
            )
        }),
{
    proof {
        reveal_strlit("");
        assert(""@ =~= seq![]);
        keys_of_answers_differ();
    }
    let name: &str = match printer {
        Some(name) => name,
        None => "",
    };
    let file: Option<&str> = match &source.file {
        Some(file) => Some(file.as_str()),
        None => None,
    };
    let script = build_print_script(
        file,
        name,
        overrides,
        source.paper_width,
        source.paper_height,
    );
    let mut fields: Vec<(String, Json)> = Vec::new();
    assert(json::fields_view(fields@) =~= json::no_fields());
    add_text(&mut fields, "type", "render_ok");
    add_text(&mut fields, "job_id", job_id);
    add_text(&mut fields, "png_base64", encode_base64(png).as_str());
    add_text(&mut fields, "print_script", script.as_str());
    add_text(&mut fields, "printer", name);
    add_text(
        &mut fields,
        "printer_source",
        if settings.printer.is_some() {
            "server"
        } else {
            "agent"
        },
    );
    proof {
        json::flat_objects_read_back(json::fields_view(fields@));
    }
    Json::Object(fields).to_text()
}

/// The answer to a request whose labels were not rendered. An agent reads the reason
/// back from it.
pub fn render_err(job_id: &str, error: &str) -> (r: String)
    ensures
        r@ == json::compact(err_message(job_id@, error@)),
        ws_client::response_in(r@) == Some((job_id@, Err::<OutcomeView, Seq<char>>(error@))),
{
    proof {
        keys_of_answers_differ();
    }
    let mut fields: Vec<(String, Json)> = Vec::new();
    assert(json::fields_view(fields@) =~= json::no_fields());
    add_text(&mut fields, "type", "render_err");
    add_text(&mut fields, "job_id", job_id);
    add_text(&mut fields, "error", error);
    proof {
        json::flat_objects_read_back(json::fields_view(fields@));
    }
    Json::Object(fields).to_text()
}

// ---------------------------------------------------------------------------
// The connected agents
// ---------------------------------------------------------------------------

/// A connection of an agent.
pub struct AgentConnection {
    pub conn_id: u64,
    /// When it was made, in nanoseconds.
    pub connected_at: u64,
    pub ip: String,
    /// The address of the agent's network card, where the agent reports it.
    pub mac: Option<String>,
    /// The printers that the agent has reported.
    pub printers: Vec<String>,
}

pub struct ConnectionView {
    pub conn_id: u64,
    pub connected_at: u64,
    pub ip: Seq<char>,
    pub mac: Option<Seq<char>>,
    pub printers: Seq<Seq<char>>,
}

impl View for AgentConnection {
    type V = ConnectionView;

    open spec fn view(&self) -> ConnectionView {
        ConnectionView {
            conn_id: self.conn_id,
            connected_at: self.connected_at,
            ip: self.ip@,
            mac: text::text_option(self.mac),
            printers: text::texts(self.printers@),
        }
    }
}

/// The connected agents, by station.
pub struct Registry {
    pub agents: TextMap<AgentConnection>,
    /// The id of the next connection.
    pub next_conn_id: u64,
}

impl Registry {
    /// No station is connected twice.
    pub open spec fn is_valid(self) -> bool {
        self.agents.is_valid()
    }

    /// A registry without agents.
    pub fn new() -> (r: Registry)
        ensures
            r.is_valid(),
            r.agents@ == Map::<Seq<char>, ConnectionView>::empty(),
            r.next_conn_id == 1,
    {
        Registry { agents: TextMap::new(), next_conn_id: 1 }
    }

    /// Hands out the id of a connection.
    pub fn take_conn_id(&mut self) -> (r: u64)
        requires
            old(self).is_valid(),
        ensures
            final(self).is_valid(),
            r == old(self).next_conn_id,
            final(self).agents == old(self).agents,
            final(self).next_conn_id == (if r == u64::MAX {
                0
            } else {
                (r + 1) as u64
            }),
    {
        let id: u64 = self.next_conn_id;
        self.next_conn_id = if id == u64::MAX {
            0
        } else {
            id + 1
        };
        id
    }
}

/// The connection `conn_id` is the one that stands for a station.
pub open spec fn is_current(
    agents: Map<Seq<char>, ConnectionView>,
    station: Seq<char>,
    conn_id: u64,
) -> bool {
    agents.contains_key(station) && agents[station].conn_id == conn_id
}

/// The agents once a connection has reported its printers; a connection that was
/// replaced has no say.
pub open spec fn with_printers(
    agents: Map<Seq<char>, ConnectionView>,
    station: Seq<char>,
    conn_id: u64,
    printers: Seq<Seq<char>>,
) -> Map<Seq<char>, ConnectionView> {
    if is_current(agents, station, conn_id) {
        agents.insert(station, ConnectionView { printers, ..agents[station] })
    } else {
        agents
    }
}

/// The agents once a connection has ended; one that took its place stays.
pub open spec fn without_connection(
    agents: Map<Seq<char>, ConnectionView>,
    station: Seq<char>,
    conn_id: u64,
) -> Map<Seq<char>, ConnectionView> {
    if is_current(agents, station, conn_id) {
        agents.remove(station)
    } else {
        agents
    }
}

/// Notes a connection; it takes the place of one that the station had before.
pub fn registry_add(
    registry: &mut Registry,
    station: &str,
    conn_id: u64,
    ip: String,
    mac: Option<String>,
    now: u64,
)
    requires
        old(registry).is_valid(),
    ensures
        final(registry).is_valid(),
        final(registry).next_conn_id == old(registry).next_conn_id,
        final(registry).agents@ == old(registry).agents@.insert(
            station@,
            (ConnectionView {
                conn_id,
                connected_at: now,
                ip: ip@,
                mac: text::text_option(mac),
                printers: seq![],
            }),
        ),
{
    let connection = AgentConnection { conn_id, connected_at: now, ip, mac, printers: Vec::new() };
    assert(connection@.printers =~= seq![]);
    registry.agents.insert(station.to_owned(), connection);
}

/// Notes the printers that a connection has reported.
pub fn registry_set_printers(
    registry: &mut Registry,
    station: &str,
    conn_id: u64,
    printers: Vec<String>,
)
    requires
        old(registry).is_valid(),
    ensures
        final(registry).is_valid(),
        final(registry).next_conn_id == old(registry).next_conn_id,
        final(registry).agents@ == with_printers(
            old(registry).agents@,
            station@,
            conn_id,
            text::texts(printers@),
        ),
{
    let current = match registry.agents.get(station) {
        Some(agent) => agent.conn_id == conn_id,
        None => false,
    };
    if current {
        let ghost before = registry.agents@;
        let ghost reported = text::texts(printers@);
        match registry.agents.remove(station) {
            Some(agent) => {
                let mut agent = agent;
                agent.printers = printers;
                registry.agents.insert(station.to_owned(), agent);
                assert(registry.agents@ =~= before.insert(
                    station@,
                    ConnectionView { printers: reported, ..before[station@] },
                ));
            },
            None => {
                assert(false);
            },
        }
    }
}

/// Notes that a connection has ended.
pub fn registry_remove(registry: &mut Registry, station: &str, conn_id: u64)
    requires
        old(registry).is_valid(),
    ensures
        final(registry).is_valid(),
        final(registry).next_conn_id == old(registry).next_conn_id,
        final(registry).agents@ == without_connection(old(registry).agents@, station@, conn_id),
{
    let current = match registry.agents.get(station) {
        Some(agent) => agent.conn_id == conn_id,
        None => false,
    };
    if current {
        let _ = registry.agents.remove(station);
    }
}

/// A connection that was replaced can neither change nor end the one that took its
/// place.
pub proof fn replaced_connection_has_no_say(
    agents: Map<Seq<char>, ConnectionView>,
    station: Seq<char>,
    old_connection: ConnectionView,
    new_connection: ConnectionView,
    printers: Seq<Seq<char>>,
)
    requires
        old_connection.conn_id != new_connection.conn_id,
    ensures
        ({
            let replaced = agents.insert(station, old_connection).insert(station, new_connection);
            &&& without_connection(replaced, station, old_connection.conn_id) == replaced
            &&& with_printers(replaced, station, old_connection.conn_id, printers) == replaced
            &&& replaced[station] == new_connection
        }),
{
}

/// A connection that ends is gone, and leaves every other station as it is.
pub proof fn ended_connection_is_gone(
    agents: Map<Seq<char>, ConnectionView>,
    station: Seq<char>,
    connection: ConnectionView,
    other: Seq<char>,
)
    requires
        other != station,
    ensures
        ({
            let ended = without_connection(
                agents.insert(station, connection),
                station,
                connection.conn_id,
            );
            &&& !ended.contains_key(station)
            &&& ended.contains_key(other) == agents.contains_key(other)
            &&& ended[other] == agents[other]
        }),
{
}

// ---------------------------------------------------------------------------
// How prints ended
// ---------------------------------------------------------------------------

/// How a print ended.
pub struct PrintRecord {
    pub station: String,
    pub job_id: String,
    pub ok: bool,
    pub error: Option<String>,
}

pub struct PrintRecordView {
    pub station: Seq<char>,
    pub job_id: Seq<char>,
    pub ok: bool,
    pub error: Option<Seq<char>>,
}

impl View for PrintRecord {
    type V = PrintRecordView;

    open spec fn view(&self) -> PrintRecordView {
        PrintRecordView {
            station: self.station@,
            job_id: self.job_id@,
            ok: self.ok,
            error: text::text_option(self.error),
        }
    }
}

/// How many prints are remembered.
pub const MAX_PRINT_RECORDS: usize = 100;

/// What the records of prints say.
pub open spec fn records_view(list: Seq<PrintRecord>) -> Seq<PrintRecordView> {
    list.map_values(|r: PrintRecord| r@)
}

/// The records, newest first, with a new one; the oldest is dropped where there are
/// too many.
pub open spec fn recorded(list: Seq<PrintRecordView>, record: PrintRecordView) -> Seq<
    PrintRecordView,
> {
    let all = seq![record] + list;
    if all.len() > MAX_PRINT_RECORDS {
        all.take(MAX_PRINT_RECORDS as int)
    } else {
        all
    }
}

/// Remembers how a print ended.
pub fn record_print_result(records: &mut Vec<PrintRecord>, record: PrintRecord)
    requires
        old(records)@.len() <= MAX_PRINT_RECORDS,
    ensures
        final(records)@.len() <= MAX_PRINT_RECORDS,
        records_view(final(records)@) == recorded(records_view(old(records)@), record@),
{
    let ghost before = records_view(records@);
    let ghost added = record@;
    records.insert(0, record);
    assert(records_view(records@) =~= seq![added] + before);
    if records.len() > MAX_PRINT_RECORDS {
        let ghost all = records_view(records@);
        records.truncate(MAX_PRINT_RECORDS);
        assert(records_view(records@) =~= all.take(MAX_PRINT_RECORDS as int));
    }
}

// ---------------------------------------------------------------------------
// Messages
// ---------------------------------------------------------------------------

/// Labels that an agent has asked for.
pub struct RenderJob {
    pub job_id: String,
    pub template: Option<String>,
    pub labels: Vec<Json>,
    /// The printer that is used.
    pub printer: Option<String>,
    /// The settings of the agent's station.
    pub settings: AgentSettings,
}

/// The printer that is used: that of the settings of the station, or else the one
/// that the agent names.
pub open spec fn effective_printer(settings: SettingsView, named: Option<Seq<char>>) -> Option<
    Seq<char>,
> {
    match settings.printer {
        Some(printer) => Some(printer),
        None => named,
    }
}

/// The settings of a station; none where they were never set.
pub open spec fn settings_or_none(settings: Option<SettingsView>) -> SettingsView {
    match settings {
        Some(s) => s,
        None => template_store::no_override(),
    }
}

/// Takes a message of an agent: notes what it reports, and gives what it asks for. A
/// text that is no message changes nothing. `settings` are the settings of its station.
pub fn handle_agent_message(
    message: Option<AgentMessage>,
    station: &str,
    conn_id: u64,
    registry: &mut Registry,
    records: &mut Vec<PrintRecord>,
    settings: Option<AgentSettings>,
) -> (r: Option<RenderJob>)
    requires
        old(registry).is_valid(),
        old(records)@.len() <= MAX_PRINT_RECORDS,
    ensures
        final(registry).is_valid(),
        final(registry).next_conn_id == old(registry).next_conn_id,
        final(records)@.len() <= MAX_PRINT_RECORDS,
        match message {
            None => {
                &&& r is None
                &&& final(registry).agents@ == old(registry).agents@
                &&& final(records)@ == old(records)@
            },
            Some(AgentMessage::Hello { printers }) => {
                &&& r is None
                &&& final(registry).agents@ == with_printers(
                    old(registry).agents@,
                    station@,
                    conn_id,
                    text::texts(printers@),
                )
                &&& final(records)@ == old(records)@
            },
            Some(AgentMessage::PrintResult { job_id, ok, error }) => {
                &&& r is None
                &&& final(registry).agents@ == old(registry).agents@
                &&& records_view(final(records)@) == recorded(
                    records_view(old(records)@),
                    PrintRecordView {
                        station: station@,
                        job_id: job_id@,
                        ok,
                        error: text::text_option(error),
                    },
                )
            },
            Some(AgentMessage::Render { job_id, template, labels, printer }) => {
                let used = settings_or_none(
                    match settings {
                        Some(s) => Some(s@),
                        None => None,
                    },
                );
                &&& r matches Some(job) && job.job_id == job_id && job.template == template
                    && job.labels == labels && job.settings@ == used && text::text_option(
                    job.printer,
                ) == effective_printer(used, text::text_option(printer))
                &&& final(registry).agents@ == old(registry).agents@
                &&& final(records)@ == old(records)@
            },
        },
{
    match message {
        None => None,
        Some(AgentMessage::Hello { printers }) => {
            registry_set_printers(registry, station, conn_id, printers);
            None
        },
        Some(AgentMessage::PrintResult { job_id, ok, error }) => {
            record_print_result(
                records,
                PrintRecord { station: station.to_owned(), job_id, ok, error },
            );
            None
        },
        Some(AgentMessage::Render { job_id, template, labels, printer }) => {
            let settings = match settings {
                Some(settings) => settings,
                None => AgentSettings { printer: None, paper_width: None, paper_height: None },
            };
            let printer = match &settings.printer {
                Some(name) => Some(name.clone()),
                None => printer,
            };
            Some(RenderJob { job_id, template, labels, printer, settings })
        },
    }
}

/// Answers a request for labels: with the picture and the print script, or with the
/// reason why there are none. The agent reads back what was put in.
pub fn reply(
    job: &RenderJob,
    outcome: Result<Vec<u8>, CustomError>,
    overrides: &PrintOverrides,
    source: &ScriptSource,
) -> (r: String)
    ensures
        ws_client::response_in(r@) == Some(
            (
                job.job_id@,
                match outcome {
                    Ok(png) => Ok::<OutcomeView, Seq<char>>(
                        outcome_for(
                            png@,
                            text::text_option(job.printer),
                            job.settings@,
                            *overrides,
                            *source,
                        ),
                    ),
                    Err(e) => Err::<OutcomeView, Seq<char>>(err::message(e@)),
                },
            ),
        ),
{
    match outcome {
        Ok(png) => {
            let printer: Option<&str> = match &job.printer {
                Some(name) => Some(name.as_str()),
                None => None,
            };
            render_ok(
                job.job_id.as_str(),
                png.as_slice(),
                printer,
                &job.settings,
                overrides,
                source,
            )
        },
        Err(e) => render_err(job.job_id.as_str(), e.to_text().as_str()),
    }
}

// ---------------------------------------------------------------------------
// Requests
// ---------------------------------------------------------------------------

/// A text that is present and not empty.
pub open spec fn non_empty(s: Option<Seq<char>>) -> Option<Seq<char>> {
    match s {
        Some(s) => if s.len() > 0 {
            Some(s)
        } else {
            None
        },
        None => None,
    }
}

/// A text that is present and not empty.
pub fn if_not_empty(s: Option<&str>) -> (r: Option<String>)
    ensures
        text::text_option(r) == non_empty(
            match s {
                Some(s) => Some(s@),
                None => None,
            },
        ),
{
    match s {
        Some(s) => {
            if s.is_empty() {
                None
            } else {
                Some(s.to_owned())
            }
        },
        None => None,
    }
}

/// The station that connects; `unknown` where it gives no name.
pub fn station_of(name: Option<&str>) -> (r: String)
    ensures
        r@ == (match non_empty(
            match name {
                Some(s) => Some(s@),
                None => None,
            },
        ) {
            Some(s) => s,
            None => "unknown"@,
        }),
{
    match if_not_empty(name) {
        Some(s) => s,
        None => "unknown".to_owned(),
    }
}

/// The settings that a request asks for: white space around the name of the printer is
/// dropped, and an empty name overrides nothing.
pub fn settings_of_request(
    printer: Option<&str>,
    paper_width: Option<PaperLength>,
    paper_height: Option<PaperLength>,
) -> (r: AgentSettings)
    ensures
        r@ == (SettingsView {
            printer: non_empty(
                match printer {
                    Some(p) => Some(text::trim(p@)),
                    None => None,
                },
            ),
            paper_width,
            paper_height,
        }),
{
    let printer = match printer {
        Some(p) => if_not_empty(Some(trimmed_str(p).as_str())),
        None => None,
    };
    AgentSettings { printer, paper_width, paper_height }
}

/// What is told of a connected agent.
pub struct AgentInfo {
    pub station: String,
    pub ip: String,
    pub mac: Option<String>,
    pub connected_secs: u64,
    pub printers: Vec<String>,
    pub printer_override: Option<String>,
    pub paper_width: Option<PaperLength>,
    pub paper_height: Option<PaperLength>,
}

pub struct AgentInfoView {
    pub station: Seq<char>,
    pub ip: Seq<char>,
    pub mac: Option<Seq<char>>,
    pub connected_secs: u64,
    pub printers: Seq<Seq<char>>,
    pub settings: SettingsView,
}

impl View for AgentInfo {
    type V = AgentInfoView;

    open spec fn view(&self) -> AgentInfoView {
        AgentInfoView {
            station: self.station@,
            ip: self.ip@,
            mac: text::text_option(self.mac),
            connected_secs: self.connected_secs,
            printers: text::texts(self.printers@),
            settings: SettingsView {
                printer: text::text_option(self.printer_override),
                paper_width: self.paper_width,
                paper_height: self.paper_height,
            },
        }
    }
}

/// What is told of the agent of a station.
pub open spec fn info(
    station: Seq<char>,
    agent: ConnectionView,
    settings: Map<Seq<char>, SettingsView>,
    now: u64,
) -> AgentInfoView {
    AgentInfoView {
        station,
        ip: agent.ip,
        mac: agent.mac,
        connected_secs: if now >= agent.connected_at {
            ((now - agent.connected_at) / 1_000_000_000) as u64
        } else {
            0
        },
        printers: agent.printers,
        settings: settings_or_none(
            if settings.contains_key(station) {
                Some(settings[station])
            } else {
                None
            },
        ),
    }
}

fn copied_text(s: &Option<String>) -> (r: Option<String>)
    ensures
        text::text_option(r) == text::text_option(*s),
{
    match s {
        Some(s) => Some(s.clone()),
        None => None,
    }
}

fn copied_texts(list: &Vec<String>) -> (r: Vec<String>)
    ensures
        text::texts(r@) == text::texts(list@),
{
    let mut r: Vec<String> = Vec::new();
    let mut i: usize = 0;
    while i < list.len()
        invariant
            i <= list@.len(),
            r@.len() == i,
            forall|k: int| 0 <= k < i ==> (#[trigger] r@[k])@ == list@[k]@,
        decreases list@.len() - i,
    {
        r.push(list[i].clone());
        i += 1;
    }
    assert(text::texts(r@) =~= text::texts(list@));
    r
}

/// What is told of each entry.
pub open spec fn infos(list: Seq<AgentInfo>) -> Seq<AgentInfoView> {
    list.map_values(|a: AgentInfo| a@)
}

/// The connected agents, each station once, with the settings of their stations. The
/// time is given in nanoseconds; whole seconds are told.
pub fn list_agents(registry: &Registry, settings: &TextMap<AgentSettings>, now: u64) -> (r: Vec<
    AgentInfo,
>)
    requires
        registry.is_valid(),
        settings.is_valid(),
    ensures
        forall|station: Seq<char>| #[trigger]
            registry.agents@.contains_key(station) ==> infos(r@).contains(
                info(station, registry.agents@[station], settings@, now),
            ),
        forall|i: int|
            0 <= i < r@.len() ==> registry.agents@.contains_key((#[trigger] infos(r@)[i]).station)
                && infos(r@)[i] == info(
                infos(r@)[i].station,
                registry.agents@[infos(r@)[i].station],
                settings@,
                now,
            ),
        forall|i: int, j: int|
            0 <= i < j < r@.len() ==> (#[trigger] infos(r@)[i]).station != (#[trigger] infos(
                r@,
            )[j]).station,
{
    let mut r: Vec<AgentInfo> = Vec::new();
    let ghost list = registry.agents.list();
    let entries = registry.agents.entries();
    let mut i: usize = 0;
    while i < entries.len()
        invariant
            settings.is_valid(),
            list == entries@,
            i <= list.len(),
            r@.len() == i,
            forall|k: int|
                0 <= k < i ==> (#[trigger] r@[k])@ == info(list[k].0@, list[k].1@, settings@, now),
        decreases list.len() - i,
    {
        let station = entries[i].0.clone();
        let agent = &entries[i].1;
        let found = match settings.get(station.as_str()) {
            Some(s) => s.copied(),
            None => AgentSettings { printer: None, paper_width: None, paper_height: None },
        };
        let connected_secs: u64 = if now >= agent.connected_at {
            (now - agent.connected_at) / 1_000_000_000
        } else {
            0
        };
        r.push(
            AgentInfo {
                station,
                ip: agent.ip.clone(),
                mac: copied_text(&agent.mac),
                connected_secs,
                printers: copied_texts(&agent.printers),
                printer_override: found.printer,
                paper_width: found.paper_width,
                paper_height: found.paper_height,
            },
        );
        i += 1;
    }
    proof {
        let told = infos(r@);
        assert forall|station: Seq<char>| #[trigger] registry.agents@.contains_key(
            station,
        ) implies told.contains(info(station, registry.agents@[station], settings@, now)) by {
            text_map::value_at(list, station);
            let k = choose|k: int| text_map::is_at(list, station, k);
            assert(text_map::is_at(list, station, k));
            assert(told[k] == info(station, registry.agents@[station], settings@, now));
        }
        assert forall|k: int| 0 <= k < r@.len() implies registry.agents@.contains_key(
            (#[trigger] told[k]).station,
        ) && told[k] == info(told[k].station, registry.agents@[told[k].station], settings@, now) by {
            assert(told[k] == r@[k]@);
            text_map::value_at(list, list[k].0@);
            assert(text_map::is_at(list, list[k].0@, k));
        }
        assert forall|a: int, b: int| 0 <= a < b < r@.len() implies (#[trigger] told[a]).station
            != (#[trigger] told[b]).station by {
            assert(told[a] == r@[a]@ && told[b] == r@[b]@);
            assert(list[a].0@ != list[b].0@);
        }
    }
    r
}

// ---------------------------------------------------------------------------
// The socket of an agent
// ---------------------------------------------------------------------------

/// What comes up on the socket of an agent.
pub enum SocketEvent {
    /// A text message came.
    Text(String),
    /// A ping came.
    Ping(Vec<u8>),
    /// The agent closed the socket.
    Close,
    /// A message of another kind came.
    Other,
    /// Nothing more can be read.
    Ended,
    /// An answer could not be sent.
    NotSent,
}

/// What is to be done about it.
pub enum SocketAction {
    /// Take this message.
    Handle(String),
    /// Answer a ping.
    Pong(Vec<u8>),
    Nothing,
    /// End the connection.
    End,
}

/// Decides what is to be done about an event on the socket of an agent.
pub fn socket_step(event: SocketEvent) -> (r: SocketAction)
    ensures
        r == (match event {
            SocketEvent::Text(message) => SocketAction::Handle(message),
            SocketEvent::Ping(bytes) => SocketAction::Pong(bytes),
            SocketEvent::Close => SocketAction::End,
            SocketEvent::Other => SocketAction::Nothing,
            SocketEvent::Ended => SocketAction::End,
            SocketEvent::NotSent => SocketAction::End,
        }),
{
    match event {
        SocketEvent::Text(message) => SocketAction::Handle(message),
        SocketEvent::Ping(bytes) => SocketAction::Pong(bytes),
        SocketEvent::Close => SocketAction::End,
        SocketEvent::Other => SocketAction::Nothing,
        SocketEvent::Ended => SocketAction::End,
        SocketEvent::NotSent => SocketAction::End,
    }
}

/// The error of a socket that could not be opened.
pub fn handshake_error(reason: &str) -> (r: CustomError)
    ensures
        r@ == ErrorView::OtherLibraryError("ws 握手失败: "@ + reason@),
{
    other_error_with("ws 握手失败: ", reason)
}

// ---------------------------------------------------------------------------
// What agents are told, and what is told of them
// ---------------------------------------------------------------------------

/// What is held says what its fields hold, one by one.
pub proof fn fields_say_what_they_hold(
    connection: AgentConnection,
    record: PrintRecord,
    info: AgentInfo,
    records: Seq<PrintRecord>,
    list: Seq<AgentInfo>,
    i: int,
)
    ensures
        connection@.conn_id == connection.conn_id,
        connection@.connected_at == connection.connected_at,
        connection@.ip == connection.ip@,
        connection.mac matches Some(mac) ==> connection@.mac == Some(mac@),
        connection.mac is None ==> connection@.mac is None,
        connection@.printers == text::texts(connection.printers@),
        record@.station == record.station@,
        record@.job_id == record.job_id@,
        record@.ok == record.ok,
        record.error matches Some(error) ==> record@.error == Some(error@),
        record.error is None ==> record@.error is None,
        records_view(records).len() == records.len(),
        0 <= i < records.len() ==> records_view(records)[i] == records[i]@,
        info@.station == info.station@,
        info@.ip == info.ip@,
        info.mac matches Some(mac) ==> info@.mac == Some(mac@),
        info.mac is None ==> info@.mac is None,
        info@.connected_secs == info.connected_secs,
        info@.printers == text::texts(info.printers@),
        info.printer_override matches Some(p) ==> info@.settings.printer == Some(p@),
        info.printer_override is None ==> info@.settings.printer is None,
        info@.settings.paper_width == info.paper_width,
        info@.settings.paper_height == info.paper_height,
        infos(list).len() == list.len(),
        0 <= i < list.len() ==> infos(list)[i] == list[i]@,
{
}

/// The answer to labels that were rendered carries the picture in base64, the script, the
/// printer and where its name comes from, under these names, for the job that asked.
pub proof fn answers_name_what_they_carry(id: Seq<char>, outcome: OutcomeView, error: Seq<char>)
    ensures
        ok_message(id, outcome) matches JsonView::Object(m) && {
            &&& context::holds_text(m, "type"@, "render_ok"@)
            &&& context::holds_text(m, "job_id"@, id)
            &&& context::holds_text(m, "png_base64"@, codec::base64_text(outcome.png))
            &&& context::holds_text(m, "print_script"@, outcome.script)
            &&& context::holds_text(m, "printer"@, outcome.printer)
            &&& context::holds_text(m, "printer_source"@, outcome.printer_source)
        },
        err_message(id, error) matches JsonView::Object(m) && {
            &&& context::holds_text(m, "type"@, "render_err"@)
            &&& context::holds_text(m, "job_id"@, id)
            &&& context::holds_text(m, "error"@, error)
        },
{
    keys_of_answers_differ();
}

/// An agent is sent the picture that was rendered, and the name of the printer that is used;
/// `server` where the settings of the station name it, `agent` where they do not.
pub proof fn agents_are_sent_their_picture(
    png: Seq<u8>,
    name: Seq<char>,
    settings: SettingsView,
    overrides: PrintOverrides,
    source: ScriptSource,
)
    ensures
        outcome_for(png, Some(name), settings, overrides, source).png == png,
        outcome_for(png, Some(name), settings, overrides, source).printer == name,
        outcome_for(png, None, settings, overrides, source).png == png,
        outcome_for(png, None, settings, overrides, source).printer.len() == 0,
        settings.printer is Some ==> outcome_for(
            png,
            Some(name),
            settings,
            overrides,
            source,
        ).printer_source == "server"@,
        settings.printer is None ==> outcome_for(
            png,
            Some(name),
            settings,
            overrides,
            source,
        ).printer_source == "agent"@,
        outcome_for(png, Some(name), settings, overrides, source).script == print_script::filled(
            print_script::chosen_template(
                match source.file {
                    Some(file) => Some(file@),
                    None => None,
                },
            ),
            name,
            print_script::values_of(overrides, source.paper_width, source.paper_height),
        ),
        outcome_for(png, None, settings, overrides, source).script == print_script::filled(
            print_script::chosen_template(
                match source.file {
                    Some(file) => Some(file@),
                    None => None,
                },
            ),
            seq![],
            print_script::values_of(overrides, source.paper_width, source.paper_height),
        ),
{
}

/// The printer of the settings of the station prevails over the one that the agent names.
pub proof fn station_printer_prevails(
    settings: SettingsView,
    named: Option<Seq<char>>,
    printer: Seq<char>,
)
    ensures
        settings.printer == Some(printer) ==> effective_printer(settings, named) == Some(printer),
        settings.printer is None ==> effective_printer(settings, named) == named,
        settings_or_none(Some(settings)) == settings,
        settings_or_none(None).printer is None,
        settings_or_none(None).paper_width is None,
        settings_or_none(None).paper_height is None,
{
}

/// The printers that a connection reports are noted for its station where it is the current
/// connection; all else of the station, and every other station, stays.
pub proof fn reported_printers_are_noted(
    agents: Map<Seq<char>, ConnectionView>,
    station: Seq<char>,
    conn_id: u64,
    printers: Seq<Seq<char>>,
    other: Seq<char>,
)
    ensures
        ({
            let after = with_printers(agents, station, conn_id, printers);
            let current = agents.contains_key(station) && agents[station].conn_id == conn_id;
            &&& current ==> {
                &&& after.contains_key(station)
                &&& after[station].printers == printers
                &&& after[station].conn_id == conn_id
                &&& after[station].ip == agents[station].ip
                &&& after[station].mac == agents[station].mac
                &&& after[station].connected_at == agents[station].connected_at
            }
            &&& !current ==> after == agents
            &&& other != station ==> after.contains_key(other) == agents.contains_key(other)
                && after[other] == agents[other]
        }),
        ({
            let after = without_connection(agents, station, conn_id);
            let current = agents.contains_key(station) && agents[station].conn_id == conn_id;
            &&& current ==> !after.contains_key(station)
            &&& !current ==> after == agents
            &&& other != station ==> after.contains_key(other) == agents.contains_key(other)
                && after[other] == agents[other]
        }),
{
}

/// How a print ended is remembered first; what was remembered before follows in its order,
/// and only the hundred newest are kept.
pub proof fn newest_prints_are_remembered(
    list: Seq<PrintRecordView>,
    record: PrintRecordView,
    i: int,
)
    ensures
        recorded(list, record).len() == (if list.len() < 100 {
            list.len() + 1
        } else {
            100
        }),
        recorded(list, record)[0] == record,
        0 < i < recorded(list, record).len() ==> recorded(list, record)[i] == list[i - 1],
{
}

/// What is told of an agent: its station, its addresses and printers, for how many whole
/// seconds it has been connected, and the settings of its station.
pub proof fn agents_are_told_of(
    station: Seq<char>,
    agent: ConnectionView,
    settings: Map<Seq<char>, SettingsView>,
    now: u64,
)
    ensures
        ({
            let told = info(station, agent, settings, now);
            &&& told.station == station
            &&& told.ip == agent.ip
            &&& told.mac == agent.mac
            &&& told.printers == agent.printers
            &&& now >= agent.connected_at ==> told.connected_secs * 1_000_000_000 <= now
                - agent.connected_at < (told.connected_secs + 1) * 1_000_000_000
            &&& now < agent.connected_at ==> told.connected_secs == 0
            &&& settings.contains_key(station) ==> told.settings == settings[station]
            &&& !settings.contains_key(station) ==> told.settings.printer is None
                && told.settings.paper_width is None && told.settings.paper_height is None
        }),
{
}

/// A text that is empty counts as absent.
pub proof fn empty_texts_count_as_absent(s: Seq<char>)
    ensures
        s.len() > 0 ==> non_empty(Some(s)) == Some(s),
        non_empty(Some(Seq::<char>::empty())) is None,
        non_empty(None) is None,
{
}

/// What an agent sends is read under the names that it is sent with.
pub proof fn messages_are_read_by_name(
    m: Map<Seq<char>, JsonView>,
    id: Seq<char>,
    labels: Seq<JsonView>,
    printer: Seq<char>,
    template: Seq<char>,
    ok: bool,
    error: Seq<char>,
)
    ensures
        context::holds_text(m, "type"@, "render"@) && context::holds_text(m, "job_id"@, id)
            && m.contains_key("labels"@) && m["labels"@] == JsonView::Array(labels)
            && context::holds_text(m, "printer"@, printer) && context::holds_text(
            m,
            "template"@,
            template,
        ) ==> message_in(JsonView::Object(m)) == Some(
            MessageView::Render {
                job_id: id,
                template: Some(template),
                labels,
                printer: Some(printer),
            },
        ),
        context::holds_text(m, "type"@, "print_result"@) && context::holds_text(
            m,
            "job_id"@,
            id,
        ) && m.contains_key("ok"@) && m["ok"@] == JsonView::Bool(ok) && context::holds_text(
            m,
            "error"@,
            error,
        ) ==> message_in(JsonView::Object(m)) == Some(
            MessageView::PrintResult { job_id: id, ok, error: Some(error) },
        ),
{
    reveal_strlit("render");
    reveal_strlit("hello");
    reveal_strlit("print_result");
    assert("render"@.len() == 6 && "hello"@.len() == 5 && "print_result"@.len() == 12);
}

/// A message is the document that its text holds; a text that holds none is no message.
pub proof fn messages_are_documents(message: Seq<char>, v: JsonView)
    ensures
        json::document(message) == Ok::<JsonView, Seq<char>>(v) ==> message_of(message)
            == message_in(v),
        json::document(message) is Err ==> message_of(message) is None,
{
}

} // verus!
