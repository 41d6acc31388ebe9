use base64::engine::general_purpose;
use base64::Engine;
use qr_server::agent::ws_client;
use qr_server::assets;
use qr_server::err::CustomError;
use qr_server::json;
use qr_server::service::agent_installer;
use qr_server::service::agent_ws;
use qr_server::service::agent_ws::{
    AgentMessage, Registry, RenderJob, ScriptSource, SocketAction, SocketEvent,
};
use qr_server::service::config;
use qr_server::service::designer;
use qr_server::service::print;
use qr_server::service::print_script;
use qr_server::service::print_script::PrintOverrides;
use qr_server::service::template_store::{AgentSettings, PaperLength};
use qr_server::text_map::TextMap;

fn hundredths(cm: f64) -> i32 {
    (cm / 2.54 * 100.0) as i32
}

fn source() -> ScriptSource {
    let print = config::PrintConfig::default();
    ScriptSource {
        file: None,
        paper_width: hundredths(f64::from_bits(print.paper_width.bits)),
        paper_height: hundredths(f64::from_bits(print.paper_height.bits)),
    }
}

fn script(overrides: &PrintOverrides) -> String {
    let source = source();
    print_script::build_print_script(None, "P1", overrides, source.paper_width, source.paper_height)
}

#[test]
fn station_paper_override_wins_over_global_config() {
    let text = script(&PrintOverrides {
        paper_width: Some(hundredths(15.0)),
        paper_height: Some(hundredths(10.0)),
        ..Default::default()
    });
    assert!(text.contains("PaperSize('CustomSize', 590, 393)"));
    let text = script(&PrintOverrides::default());
    assert!(text.contains("PaperSize('CustomSize', 416, 1169)"));
}

#[test]
fn script_params_override_wins_over_csharp_defaults() {
    let text = script(&PrintOverrides {
        margin: Some(40),
        y_offset: Some(900),
        queue_timeout_secs: Some(90),
        ..Default::default()
    });
    assert!(text.contains("($area.Width - 40)"));
    assert!(text.contains("($area.Height - $h - 900) / 2"));
    assert!(text.contains("AddSeconds(90)"));
    assert!(text.contains("超时（90 秒）"));
    let text = script(&PrintOverrides::default());
    assert!(text.contains("($area.Width - 28)"));
    assert!(text.contains("($area.Height - $h - 780) / 2"));
    assert!(text.contains("AddSeconds(60)"));
}

#[test]
fn custom_template_substitutes_all_placeholders() {
    let template = "print '{{printer_name}}' on {{paper_width}}x{{paper_height}} \
                    margin={{margin}} y={{y_offset}} timeout={{queue_timeout}} { 保留花括号 }";
    let script = print_script::render_template(template, "Bob's Printer", 416, 1169, 28, 780, 60);
    assert_eq!(
        script,
        "print 'Bob''s Printer' on 416x1169 margin=28 y=780 timeout=60 { 保留花括号 }"
    );
}

#[test]
fn print_script_print_script_matches_csharp_logic() {
    let script = print_script::build_script("ZDesigner ZT231-300dpi ZPL", 416, 1169, 28, 780, 60);
    assert!(script.contains("PaperSize('CustomSize', 416, 1169)"));
    assert!(script.contains("($area.Width - 28)"));
    assert!(script.contains("($area.Height - $h - 780) / 2"));
    assert!(script.contains("StandardPrintController"));
    assert!(script.contains("$pd.PrinterSettings.PrinterName = $printerName"));
}

#[test]
fn print_script_reads_image_from_stdin_without_temp_file() {
    let script = print_script::build_script("ZDesigner ZT231-300dpi ZPL", 416, 1169, 28, 780, 60);
    assert!(script.contains("Add-Type -AssemblyName System.Drawing"));
    assert!(script.contains("[Convert]::FromBase64String([Console]::In.ReadToEnd())"));
    assert!(script.contains("[System.IO.MemoryStream]::new($bytes)"));
    assert!(!script.contains("ReadAllBytes"));
    assert!(!script.contains("Remove-Item"));
}

#[test]
fn print_script_print_script_escapes_single_quotes() {
    let script = print_script::build_script("Bob's Printer", 416, 1169, 28, 780, 60);
    assert!(script.contains("$printerName = 'Bob''s Printer';"));
}

#[test]
fn empty_printer_falls_back_to_system_default() {
    let script = print_script::build_script("", 416, 1169, 28, 780, 60);
    assert!(script.contains("$printerName = '';"));
    assert!(script.contains("Get-CimInstance Win32_Printer | Where-Object { $_.Default }"));
}

#[test]
fn print_script_monitors_job_until_result() {
    let script = print_script::build_script("ZDesigner ZT231-300dpi ZPL", 416, 1169, 28, 780, 60);
    assert!(script.contains("$pd.DocumentName = 'print-agent-'"));
    assert!(script.contains("Get-PrintJob -PrinterName $printerName"));
    assert!(script.contains("Error|Offline|PaperOut|NoToner|DoorOpen|Paused|Deleted|Blocked"));
    assert!(script.contains("exit 1"));
    assert!(script.contains("exit 2"));
    assert!(script.contains("exit 0"));
}

#[test]
fn template_files_lose_their_byte_order_mark() {
    assert_eq!(print_script::load_template(Some("\u{feff}\u{feff}a\u{feff}")), "a\u{feff}");
    assert_eq!(print_script::load_template(None), print_script::BUILTIN_TEMPLATE);
    assert_eq!(
        print_script::build_print_script(
            Some("\u{feff}{{printer_name}} {{paper_width}}"),
            "P",
            &PrintOverrides::default(),
            -5,
            0,
        ),
        "P -5"
    );
    assert_eq!(print_script::render_template("no placeholder", "P", 1, 2, 3, 4, 5), "no placeholder");
}

#[test]
fn designer_rejects_unsafe_asset_names() {
    assert!(!assets::is_safe_asset_name("../Cargo.toml"));
    assert!(!assets::is_safe_asset_name("a/b.js"));
    assert!(!assets::is_safe_asset_name(""));
    assert!(assets::is_safe_asset_name("vue-plugin-hiprint.js"));
    assert!(assets::is_safe_asset_name("print-lock.css"));
}

#[test]
fn assets_have_content_types() {
    assert_eq!(assets::asset_content_type("a.min.js"), "application/javascript; charset=utf-8");
    assert_eq!(assets::asset_content_type("a.css"), "text/css; charset=utf-8");
    assert_eq!(assets::asset_content_type("a.html"), "text/html; charset=utf-8");
    assert_eq!(assets::asset_content_type("a.png"), "image/png");
    for name in ["a", ".js", "..", "a.", "a.JS"] {
        assert_eq!(assets::asset_content_type(name), "application/octet-stream");
    }
    for path in ["a/b.js", "a.css/b.js", "b.js/", "b.js/.", "../b.js/.//"] {
        assert_eq!(assets::asset_content_type(path), "application/javascript; charset=utf-8");
    }
    for path in ["a.js/b", "a/.js", "b.js/..", "/", "./.", ""] {
        assert_eq!(assets::asset_content_type(path), "application/octet-stream");
    }
    assert_eq!(
        designer::asset_name("a b").unwrap_err().to_text(),
        "OtherLibraryError: invalid asset name: a b"
    );
    assert!(designer::asset_name("a.js").is_ok());
}

#[test]
fn installer_uses_request_host_and_ws_scheme() {
    let url = agent_installer::websocket_url("http", "192.168.1.10:9095");
    assert_eq!(url, "ws://192.168.1.10:9095/ws/agent");
    assert!(agent_installer::installer_script(&url).contains("-ServerUrl 'ws://192.168.1.10:9095/ws/agent'"));
}

#[test]
fn installer_uses_wss_for_https_requests() {
    assert_eq!(
        agent_installer::websocket_url("https", "print.example.com"),
        "wss://print.example.com/ws/agent"
    );
}

#[test]
fn installer_quotes_the_address() {
    assert_eq!(
        agent_installer::installer_script("ws://a'b"),
        "$script = Invoke-RestMethod 'https://raw.githubusercontent.com/zy97/qr_server/master/scripts/install-print-agent.ps1'; & ([scriptblock]::Create($script)) -ServerUrl 'ws://a''b'\r\n"
    );
}

#[test]
fn render_ok_carries_base64_png() {
    let text = agent_ws::render_ok(
        "1-7",
        b"png-bytes",
        Some("ZDesigner ZT231-300dpi ZPL"),
        &AgentSettings::default(),
        &PrintOverrides::default(),
        &source(),
    );
    let value: serde_json::Value = serde_json::from_str(&text).unwrap();
    assert_eq!(value["type"], "render_ok");
    assert_eq!(value["job_id"], "1-7");
    assert!(value["print_script"].as_str().unwrap().contains("Get-PrintJob"));
    assert_eq!(
        general_purpose::STANDARD
            .decode(value["png_base64"].as_str().unwrap())
            .unwrap(),
        b"png-bytes"
    );
    assert_eq!(value["printer"], "ZDesigner ZT231-300dpi ZPL");
    assert_eq!(value["printer_source"], "agent");
}

#[test]
fn render_err_carries_message() {
    let text = agent_ws::render_err("1-7", "模板不存在");
    let value: serde_json::Value = serde_json::from_str(&text).unwrap();
    assert_eq!(value["type"], "render_err");
    assert_eq!(value["error"], "模板不存在");
    assert_eq!(value["job_id"], "1-7");
}

#[test]
fn registry_remove_only_matching_connection() {
    let mut registry = Registry::new();
    agent_ws::registry_add(&mut registry, "STATION-B", 1, "10.0.0.1".to_string(), None, 0);
    agent_ws::registry_add(
        &mut registry,
        "STATION-B",
        2,
        "10.0.0.2".to_string(),
        Some("00-11-22-33-44-55".to_string()),
        0,
    );
    agent_ws::registry_remove(&mut registry, "STATION-B", 1);
    {
        let agent = registry.agents.get("STATION-B").unwrap();
        assert_eq!(agent.ip, "10.0.0.2");
        assert_eq!(agent.mac.as_deref(), Some("00-11-22-33-44-55"));
    }
    agent_ws::registry_remove(&mut registry, "STATION-B", 2);
    assert!(registry.agents.get("STATION-B").is_none());
}

#[test]
fn agents_send_whole_documents() {
    let text = ws_client::hello_message("S", &vec!["a\"b".to_string(), "打印机".to_string()]);
    assert_eq!(text, r#"{"printers":["a\"b","打印机"],"station":"S","type":"hello"}"#);
    let text = ws_client::notify_print_result("1-7", "P", Err("x".to_string()));
    assert_eq!(
        text,
        r#"{"error":"x","job_id":"1-7","ok":false,"printer":"P","type":"print_result"}"#
    );
    let mut state = ws_client::start(1);
    ws_client::set_connected(&mut state);
    let labels = vec![json::parse(r#"{"n":[1,-2.5,{"d":18446744073709551615}]}"#).unwrap()];
    let (id, text) = ws_client::begin_render(&mut state, "u", labels, Some("t"), "P").unwrap();
    assert_eq!(id, "1-1");
    assert_eq!(
        text,
        r#"{"job_id":"1-1","labels":[{"n":[1,-2.5,{"d":18446744073709551615}]}],"printer":"P","template":"t","type":"render"}"#
    );
    assert_eq!(json::parse(&text).unwrap().to_text(), text);
}

#[test]
fn sockets_are_answered() {
    assert!(matches!(agent_ws::socket_step(SocketEvent::Text("t".to_string())), SocketAction::Handle(t) if t == "t"));
    assert!(matches!(agent_ws::socket_step(SocketEvent::Ping(vec![1])), SocketAction::Pong(b) if b == vec![1]));
    assert!(matches!(agent_ws::socket_step(SocketEvent::Other), SocketAction::Nothing));
    assert!(matches!(agent_ws::socket_step(SocketEvent::Close), SocketAction::End));
    assert!(matches!(agent_ws::socket_step(SocketEvent::Ended), SocketAction::End));
    assert!(matches!(agent_ws::socket_step(SocketEvent::NotSent), SocketAction::End));
    assert_eq!(
        agent_ws::handshake_error("x").to_text(),
        "OtherLibraryError: ws 握手失败: x"
    );
}

fn message(text: &str) -> AgentMessage {
    let value: serde_json::Value = serde_json::from_str(text).unwrap();
    let text_of = |key: &str| value[key].as_str().map(str::to_string);
    let items_of = |key: &str| value[key].as_array().cloned().unwrap_or_default();
    match value["type"].as_str() {
        Some("render") => AgentMessage::Render {
            job_id: text_of("job_id").unwrap(),
            template: text_of("template"),
            labels: items_of("labels").iter().map(|v| json::parse(&v.to_string()).unwrap()).collect(),
            printer: text_of("printer"),
        },
        Some("hello") => AgentMessage::Hello {
            printers: items_of("printers").iter().map(|v| v.as_str().unwrap().to_string()).collect(),
        },
        _ => AgentMessage::PrintResult {
            job_id: text_of("job_id").unwrap(),
            ok: value["ok"].as_bool().unwrap(),
            error: text_of("error"),
        },
    }
}

#[test]
fn parses_render_request() {
    let asked = message(
        r#"{"type":"render","job_id":"1-7","template":"9","labels":[{"part_no":"P-001"}],"printer":"P1"}"#,
    );
    let wanted = job(asked, None).unwrap();
    assert_eq!(wanted.job_id, "1-7");
    assert_eq!(wanted.template.as_deref(), Some("9"));
    assert_eq!(wanted.labels.len(), 1);
    assert_eq!(wanted.printer.as_deref(), Some("P1"));
}

#[test]
fn parses_print_result() {
    let reported =
        message(r#"{"type":"print_result","job_id":"1-7","ok":false,"error":"打印机脱机"}"#);
    match &reported {
        AgentMessage::PrintResult { job_id, ok, error } => {
            assert_eq!(job_id, "1-7");
            assert!(!ok);
            assert_eq!(error.as_deref(), Some("打印机脱机"));
        }
        _ => panic!("expected print_result"),
    }
    assert!(job(reported, None).is_none());
}

#[test]
fn parses_hello_and_updates_registry_printers() {
    let mut registry = Registry::new();
    agent_ws::registry_add(&mut registry, "S", 1, "ip".to_string(), None, 0);
    let greeting = message(r#"{"type":"hello","printers":["ZDesigner ZT231","HP M403"]}"#);
    match &greeting {
        AgentMessage::Hello { printers } => {
            assert_eq!(printers, &vec!["ZDesigner ZT231", "HP M403"]);
        }
        _ => panic!("expected hello"),
    }
    agent_ws::handle_agent_message(Some(greeting), "S", 1, &mut registry, &mut Vec::new(), None);
    assert_eq!(registry.agents.get("S").unwrap().printers, vec!["ZDesigner ZT231", "HP M403"]);
    agent_ws::registry_add(&mut registry, "STATION-C", 9, "10.0.0.3".to_string(), None, 0);
    agent_ws::registry_set_printers(&mut registry, "STATION-C", 8, vec!["STALE".to_string()]);
    agent_ws::registry_set_printers(&mut registry, "STATION-C", 9, vec!["P1".to_string(), "P2".to_string()]);
    assert_eq!(registry.agents.get("STATION-C").unwrap().printers, vec!["P1", "P2"]);
    agent_ws::registry_remove(&mut registry, "STATION-C", 9);
}

#[test]
fn texts_that_are_no_message_change_nothing() {
    let mut registry = Registry::new();
    let mut records = Vec::new();
    agent_ws::registry_add(&mut registry, "S", 1, "ip".to_string(), None, 0);
    let job = agent_ws::handle_agent_message(None, "S", 1, &mut registry, &mut records, None);
    assert!(job.is_none());
    assert!(records.is_empty());
    assert!(registry.agents.get("S").unwrap().printers.is_empty());
}

#[test]
fn connection_ids_are_handed_out_in_order() {
    let mut registry = Registry::new();
    assert_eq!(registry.take_conn_id(), 1);
    assert_eq!(registry.take_conn_id(), 2);
}

fn job(message: AgentMessage, settings: Option<AgentSettings>) -> Option<RenderJob> {
    let mut registry = Registry::new();
    let mut records = Vec::new();
    agent_ws::handle_agent_message(Some(message), "S", 1, &mut registry, &mut records, settings)
}

fn render_message(printer: Option<&str>) -> AgentMessage {
    AgentMessage::Render {
        job_id: "1-7".to_string(),
        template: Some("9".to_string()),
        labels: vec![json::parse(r#"{"part_no":"P-001"}"#).unwrap()],
        printer: printer.map(str::to_string),
    }
}

#[test]
fn station_settings_override_the_agent() {
    let job1 = job(render_message(Some("P1")), None).unwrap();
    assert_eq!(job1.job_id, "1-7");
    assert_eq!(job1.template.as_deref(), Some("9"));
    assert_eq!(job1.labels.len(), 1);
    assert_eq!(job1.printer.as_deref(), Some("P1"));
    let settings = AgentSettings { printer: Some("P2".to_string()), paper_width: None, paper_height: None };
    let job2 = job(render_message(Some("P1")), Some(settings)).unwrap();
    assert_eq!(job2.printer.as_deref(), Some("P2"));
    let reply = agent_ws::reply(&job2, Ok(vec![1, 2]), &PrintOverrides::default(), &source());
    match ws_client::read_response(&reply) {
        Some((id, Ok(outcome))) => {
            assert_eq!(id, "1-7");
            assert_eq!(outcome.png, vec![1, 2]);
            assert_eq!(outcome.printer, "P2");
            assert_eq!(outcome.printer_source, "server");
            assert!(outcome.script.contains("$printerName = 'P2';"));
        }
        _ => panic!("the agent reads the answer"),
    }
    let error = CustomError::OtherLibraryError("x".to_string());
    let reply = agent_ws::reply(&job2, Err(error), &PrintOverrides::default(), &source());
    match ws_client::read_response(&reply) {
        Some((id, Err(message))) => {
            assert_eq!(id, "1-7");
            assert_eq!(message, "OtherLibraryError: x");
        }
        _ => panic!("the agent reads the reason"),
    }
}

#[test]
fn print_results_are_remembered() {
    let mut registry = Registry::new();
    let mut records = Vec::new();
    for i in 0..102 {
        let message = AgentMessage::PrintResult {
            job_id: format!("1-{i}"),
            ok: i % 2 == 0,
            error: if i % 2 == 0 { None } else { Some("打印机脱机".to_string()) },
        };
        let job = agent_ws::handle_agent_message(Some(message), "S", 1, &mut registry, &mut records, None);
        assert!(job.is_none());
    }
    assert_eq!(records.len(), 100);
    assert_eq!(records[0].job_id, "1-101");
    assert_eq!(records[0].error.as_deref(), Some("打印机脱机"));
    assert!(!records[0].ok);
    assert_eq!(records[99].job_id, "1-2");
}

#[test]
fn hello_sets_the_printers() {
    let mut registry = Registry::new();
    let mut records = Vec::new();
    agent_ws::registry_add(&mut registry, "S", 1, "ip".to_string(), None, 5_900_000_000);
    let message = AgentMessage::Hello { printers: vec!["P".to_string()] };
    agent_ws::handle_agent_message(Some(message), "S", 1, &mut registry, &mut records, None);
    let mut settings = TextMap::new();
    settings.insert(
        "S".to_string(),
        AgentSettings {
            printer: Some("Q".to_string()),
            paper_width: Some(PaperLength { bits: 1.5f64.to_bits() }),
            paper_height: None,
        },
    );
    let agents = agent_ws::list_agents(&registry, &settings, 13_000_000_000);
    assert_eq!(agents.len(), 1);
    assert_eq!(agents[0].station, "S");
    assert_eq!(agents[0].ip, "ip");
    assert_eq!(agents[0].connected_secs, 7);
    assert_eq!(agents[0].printers, vec!["P"]);
    assert_eq!(agents[0].printer_override.as_deref(), Some("Q"));
    assert_eq!(agents[0].paper_width, Some(PaperLength { bits: 1.5f64.to_bits() }));
    assert!(agents[0].paper_height.is_none());
}

#[test]
fn connection_queries_have_defaults() {
    assert_eq!(agent_ws::station_of(None), "unknown");
    assert_eq!(agent_ws::station_of(Some("")), "unknown");
    assert_eq!(agent_ws::station_of(Some("A")), "A");
    assert_eq!(agent_ws::if_not_empty(Some("")), None);
    assert_eq!(agent_ws::if_not_empty(Some("m")).as_deref(), Some("m"));
    let settings = agent_ws::settings_of_request(Some("  P "), None, None);
    assert_eq!(settings.printer.as_deref(), Some("P"));
    assert!(agent_ws::settings_of_request(Some("  "), None, None).printer.is_none());
}

#[test]
fn agent_error_status_becomes_error() {
    let answer = print::AgentAnswer::Answered {
        success: false,
        status: "500 Internal Server Error".to_string(),
        body: "".to_string(),
    };
    let err = print::judge_answer(&answer).expect_err("500 should fail");
    assert!(err.to_text().contains("500"), "错误信息: {}", err.to_text());
    assert_eq!(err.to_text(), "OtherLibraryError: 打印代理返回 500 Internal Server Error: ");
}

#[test]
fn pictures_are_posted_to_the_print_endpoint() {
    assert_eq!(print::print_url("http://a:1//").unwrap(), "http://a:1/print");
    assert_eq!(
        print::print_url("").unwrap_err().to_text(),
        "OtherLibraryError: 打印已启用但未配置 print.agent_url"
    );
    let answer = print::AgentAnswer::Answered { success: true, status: "200 OK".to_string(), body: "".to_string() };
    assert!(print::judge_answer(&answer).is_ok());
    let answer = print::AgentAnswer::NotReached("refused".to_string());
    assert_eq!(
        print::judge_answer(&answer).unwrap_err().to_text(),
        "OtherLibraryError: 调用打印代理失败: refused"
    );
}

#[test]
fn service_configuration_defaults() {
    let config = config::Config::default();
    assert_eq!(config.server.host, "0.0.0.0");
    assert_eq!(config.server.port, 9095);
    assert!(config.template.save_html);
    assert_eq!(f64::from_bits(config.print.paper_width.bits), 10.57);
    assert_eq!(f64::from_bits(config.print.paper_height.bits), 29.70);
    assert!(!config.print.enabled);
}
