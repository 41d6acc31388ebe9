use qr_server::agent::config;
use qr_server::agent::config::Candidate;
use qr_server::agent::install;
use qr_server::agent::print;
use qr_server::agent::server;
use qr_server::agent::user_session;
use qr_server::agent::user_session::LaunchStep;
use qr_server::agent::ws_client;
use qr_server::agent::ws_client::{Connection, ConnectionAction, ConnectionEvent, Phase, Wait};
use qr_server::json;
use qr_server::json::Json;

#[test]
fn failure_message_prefers_stderr_detail() {
    assert_eq!(
        print::print_failure_message(Some(1), "打印任务失败: Offline".as_bytes()),
        "打印任务失败: Offline"
    );
    assert!(print::print_failure_message(Some(1), b"").contains("退出码"));
}

#[test]
fn failures_without_words_tell_the_exit_code() {
    assert_eq!(
        print::print_failure_message(Some(-1), b" \r\n"),
        "powershell 打印进程异常退出（退出码 Some(-1)）"
    );
    assert_eq!(
        print::print_failure_message(None, b""),
        "powershell 打印进程异常退出（退出码 None）"
    );
    assert_eq!(print::print_failure_message(None, b"\xff x "), "\u{fffd} x");
    assert!(print::print_result(true, Some(0), b"noise").is_ok());
    assert_eq!(print::print_result(false, Some(2), b"late").unwrap_err(), "late");
}

#[test]
fn print_processes_are_watched() {
    assert_eq!(print::poll_process(true, 500, 100), print::Poll::Read);
    assert_eq!(print::poll_process(false, 100, 100), print::Poll::Kill);
    assert_eq!(print::poll_process(false, 99, 100), print::Poll::Again);
    assert!(print::timeout_message(120).starts_with("打印进程超过 120 秒未结束，已终止。"));
    assert_eq!(print::print_input(b"png"), "cG5n");
    assert_eq!(
        print::print_arguments("s"),
        vec!["-NoProfile", "-WindowStyle", "Hidden", "-Command", "s"]
    );
}

#[test]
fn scripts_are_encoded_for_the_command_line() {
    assert_eq!(user_session::widen("a😀"), vec![0x61, 0xd83d, 0xde00, 0]);
    assert_eq!(
        user_session::script_command_line("a"),
        "powershell -NoProfile -WindowStyle Hidden -EncodedCommand YQA="
    );
    assert!(user_session::timeout_message(5, " x\n".as_bytes()).ends_with("子进程输出: x"));
}

#[test]
fn health_tells_the_connection() {
    assert_eq!(server::health(true), "ok, qr_service 已连接");
    assert_eq!(server::health(false), "ok, qr_service 未连接");
}

fn query(template: Option<&str>, printer: Option<&str>) -> server::LabelQuery {
    server::LabelQuery {
        template: template.map(str::to_string),
        printer: printer.map(str::to_string),
    }
}

#[test]
fn requests_need_labels() {
    for body in ["[]", "{}", "1", "null"] {
        let answer = server::read_request(json::parse(body).unwrap(), query(None, None), "P").unwrap_err();
        assert_eq!(answer.status, 400);
        assert_eq!(answer.text, "请求体应为非空标签数据数组");
    }
    let body = json::parse(r#"[{"a":1},{"a":2}]"#).unwrap();
    let request = server::read_request(body, query(Some("9"), None), "P").unwrap();
    assert_eq!(request.labels.len(), 2);
    assert_eq!(request.template.as_deref(), Some("9"));
    assert_eq!(request.printer, "P");
    let request = server::read_request(json::parse("[1]").unwrap(), query(None, Some("")), "P").unwrap();
    assert_eq!(request.printer, "");
}

#[test]
fn requests_are_answered() {
    let outcome = ws_client::RenderOutcome {
        png: vec![1],
        script: "s".to_string(),
        printer: "p".to_string(),
        printer_source: "agent".to_string(),
    };
    let (png, job) = server::answer_request("1-1".to_string(), Ok(outcome)).unwrap();
    assert_eq!(png, vec![1]);
    assert_eq!(job.job_id, "1-1");
    assert_eq!(job.script, "s");
    assert_eq!(job.printer, "p");
    let answer = server::answer_request("1-1".to_string(), Err("x".to_string())).unwrap_err();
    assert_eq!(answer.status, 502);
    assert_eq!(answer.text, "渲染失败: x");
}

fn connected() -> ws_client::ClientState {
    let mut state = ws_client::start(42);
    assert!(!ws_client::is_connected(&state));
    ws_client::set_connected(&mut state);
    assert!(ws_client::is_connected(&state));
    state
}

#[test]
fn rendering_needs_a_connection() {
    let mut state = ws_client::start(42);
    assert_eq!(
        ws_client::begin_render(&mut state, "ws://a", vec![], None, "P").unwrap_err(),
        "未连接到 qr_service（ws://a），请检查服务器地址与网络"
    );
}

#[test]
fn jobs_are_asked_and_answered_once() {
    let mut state = connected();
    let labels = vec![json::parse(r#"{"a":1}"#).unwrap()];
    let (id, message) = ws_client::begin_render(&mut state, "u", labels, Some("9"), "P").unwrap();
    assert_eq!(id, "42-1");
    let value: serde_json::Value = serde_json::from_str(&message).unwrap();
    assert_eq!(value["type"], "render");
    assert_eq!(value["job_id"], "42-1");
    assert_eq!(value["template"], "9");
    assert_eq!(value["labels"][0]["a"], 1);
    assert_eq!(value["printer"], "P");
    let (second, message) = ws_client::begin_render(&mut state, "u", vec![Json::Null], None, "P").unwrap();
    assert_eq!(second, "42-2");
    let value: serde_json::Value = serde_json::from_str(&message).unwrap();
    assert!(value["template"].is_null());

    let reply = r#"{"type":"render_ok","job_id":"42-1","png_base64":"cG5n","print_script":"s"}"#;
    match ws_client::route_response(&mut state, reply) {
        Some((job, Ok(outcome))) => {
            assert_eq!(job, "42-1");
            assert_eq!(outcome.png, b"png");
            assert_eq!(outcome.script, "s");
            assert_eq!(outcome.printer, "");
            assert_eq!(outcome.printer_source, "agent");
        }
        _ => panic!("the job is answered"),
    }
    assert!(ws_client::route_response(&mut state, reply).is_none());
    assert_eq!(ws_client::fail_all_pending(&mut state), vec!["42-2".to_string()]);
    assert!(!ws_client::is_connected(&state));
    assert!(ws_client::fail_all_pending(&mut state).is_empty());
}

#[test]
fn broken_responses_are_told() {
    let cases = vec![
        (r#"{"type":"render_ok","job_id":"42-1","print_script":"s"}"#, "渲染结果缺少 png_base64 或 print_script"),
        (
            r#"{"type":"render_ok","job_id":"42-1","png_base64":"*","print_script":"s"}"#,
            "渲染结果缺少 png_base64 或 print_script",
        ),
        (
            r#"{"type":"render_ok","job_id":"42-1","png_base64":"cG5n"}"#,
            "渲染结果缺少 png_base64 或 print_script",
        ),
        (r#"{"type":"render_err","job_id":"42-1","error":"x"}"#, "x"),
        (r#"{"type":"render_err","job_id":"42-1","error":1}"#, "渲染失败"),
    ];
    for (reply, reason) in cases {
        let mut state = connected();
        ws_client::begin_render(&mut state, "u", vec![], None, "P").unwrap();
        match ws_client::route_response(&mut state, reply) {
            Some((id, Err(message))) => {
                assert_eq!(id, "42-1");
                assert_eq!(message, reason);
            }
            _ => panic!("the job is answered"),
        }
    }
    let mut state = connected();
    ws_client::begin_render(&mut state, "u", vec![], None, "P").unwrap();
    for reply in ["{", "1", "{}", r#"{"type":"other","job_id":"42-1"}"#, r#"{"type":"render_err","job_id":"42-9"}"#] {
        assert!(ws_client::route_response(&mut state, reply).is_none());
    }
    assert_eq!(ws_client::fail_all_pending(&mut state).len(), 1);
}

#[test]
fn waits_end() {
    let mut state = connected();
    ws_client::begin_render(&mut state, "u", vec![], None, "P").unwrap();
    assert_eq!(
        ws_client::end_wait(&mut state, "42-1", Wait::Closed).unwrap_err(),
        "渲染结果通道已关闭"
    );
    assert_eq!(
        ws_client::end_wait(&mut state, "42-1", Wait::TimedOut).unwrap_err(),
        "渲染超时（30 秒）"
    );
    let late = r#"{"type":"render_err","job_id":"42-1"}"#;
    assert!(ws_client::route_response(&mut state, late).is_none());
    assert_eq!(
        ws_client::end_wait(&mut state, "42-1", Wait::Answered(Err("x".to_string()))).unwrap_err(),
        "x"
    );
}

#[test]
fn job_numbers_start_again() {
    let mut state = connected();
    state.next_job = u64::MAX;
    let (id, _) = ws_client::begin_render(&mut state, "u", vec![], None, "P").unwrap();
    assert_eq!(id, "42-18446744073709551615");
    let (id, _) = ws_client::begin_render(&mut state, "u", vec![], None, "P").unwrap();
    assert_eq!(id, "42-0");
}

#[test]
fn reports_are_json() {
    let hello = ws_client::hello_message("S", &vec!["a\"b".to_string()]);
    let value: serde_json::Value = serde_json::from_str(&hello).unwrap();
    assert_eq!(value["type"], "hello");
    assert_eq!(value["station"], "S");
    assert_eq!(value["printers"][0], "a\"b");
    let ok: serde_json::Value =
        serde_json::from_str(&ws_client::notify_print_result("1-1", "P", Ok(()))).unwrap();
    assert_eq!(ok["type"], "print_result");
    assert_eq!(ok["job_id"], "1-1");
    assert_eq!(ok["printer"], "P");
    assert_eq!(ok["ok"], true);
    assert!(ok["error"].is_null());
    let bad: serde_json::Value =
        serde_json::from_str(&ws_client::notify_print_result("1-1", "P", Err("x".to_string()))).unwrap();
    assert_eq!(bad["ok"], false);
    assert_eq!(bad["error"], "x");
}

#[test]
fn connections_are_made_again_after_a_while() {
    assert_eq!(ws_client::connection_url("ws://a", "S", None), "ws://a?station=S&mac=");
    assert_eq!(ws_client::connection_url("ws://a", "S", Some("M")), "ws://a?station=S&mac=M");
    let mut secs = 1;
    let mut waits = Vec::new();
    for _ in 0..7 {
        waits.push(secs);
        secs = ws_client::next_backoff(secs);
    }
    assert_eq!(waits, vec![1, 2, 4, 8, 16, 30, 30]);
}

fn step(connection: &mut Connection, event: ConnectionEvent) -> ConnectionAction {
    ws_client::connection_step("S", connection, event)
}

fn hello(printer: &str) -> String {
    ws_client::hello_message("S", &vec![printer.to_string()])
}

#[test]
fn connections_start_with_a_hello() {
    let mut c = ws_client::new_connection();
    let outgoing = || ConnectionEvent::Outgoing("o".to_string());
    assert!(matches!(step(&mut c, outgoing()), ConnectionAction::Nothing));
    let opened = ConnectionEvent::Opened(vec!["P".to_string()]);
    assert!(matches!(step(&mut c, opened), ConnectionAction::Send(m) if m == hello("P")));
    assert!(c.phase == Phase::Greeting);
    assert!(matches!(step(&mut c, outgoing()), ConnectionAction::Nothing));
    assert!(matches!(step(&mut c, ConnectionEvent::NotSent("e".to_string())), ConnectionAction::Fail(e) if e == "e"));
    assert!(matches!(step(&mut c, ConnectionEvent::Sent), ConnectionAction::Connected));
    assert!(c.phase == Phase::Open);
    assert!(matches!(step(&mut c, ConnectionEvent::Sent), ConnectionAction::Nothing));
    assert!(matches!(step(&mut c, outgoing()), ConnectionAction::Send(m) if m == "o"));
}

#[test]
fn connection_events_are_decided() {
    let mut c = Connection { phase: Phase::Open, known: vec!["P".to_string()] };
    let printers = |name: &str| ConnectionEvent::Printers(vec![name.to_string()]);
    assert!(matches!(step(&mut c, printers("P")), ConnectionAction::Nothing));
    assert!(matches!(step(&mut c, printers("Q")), ConnectionAction::Send(m) if m == hello("Q")));
    assert_eq!(c.known, vec!["Q".to_string()]);
    assert!(matches!(step(&mut c, printers("Q")), ConnectionAction::Nothing));
    assert!(matches!(step(&mut c, ConnectionEvent::Text("t".to_string())), ConnectionAction::Route(m) if m == "t"));
    assert!(matches!(step(&mut c, ConnectionEvent::Ping(vec![7])), ConnectionAction::Pong(b) if b == vec![7]));
    assert!(matches!(step(&mut c, ConnectionEvent::Other), ConnectionAction::Nothing));
    assert!(matches!(step(&mut c, ConnectionEvent::Closed), ConnectionAction::Stop));
    assert!(matches!(step(&mut c, ConnectionEvent::Failed("e".to_string())), ConnectionAction::Fail(e) if e == "e"));
    assert!(matches!(step(&mut c, ConnectionEvent::NoMore), ConnectionAction::Stop));
    assert!(matches!(step(&mut c, ConnectionEvent::NotSent("e".to_string())), ConnectionAction::Stop));
}

#[test]
fn the_service_is_described_only_once_it_was_made() {
    let good = install::CommandEnd::Ended { success: true, status: "exit code: 0".to_string() };
    let bad = install::CommandEnd::Ended { success: false, status: "exit code: 5".to_string() };
    let commands = |first: install::ServiceStep, ends: Vec<&install::CommandEnd>| {
        let mut step = first;
        let mut ran = Vec::new();
        for end in ends {
            step = match step {
                install::ServiceStep::Run(command, arguments) => {
                    ran.push(arguments[0].clone());
                    install::service_step(command, end)
                }
                ended => ended,
            };
        }
        match step {
            install::ServiceStep::Done(m) => ran.push(m),
            install::ServiceStep::Failed(m) => ran.push(m),
            install::ServiceStep::Run(..) => ran.push("more".to_string()),
        }
        ran
    };
    assert_eq!(
        commands(install::install_first("a.exe"), vec![&good, &bad, &bad]),
        vec![
            "create",
            "description",
            "failure",
            "服务已安装（开机自启，崩溃自动重启）。启动命令: sc start print-agent"
        ]
    );
    assert_eq!(
        commands(install::install_first("a.exe"), vec![&bad, &good]),
        vec!["create", "安装失败（退出码 exit code: 5），请用管理员权限运行"]
    );
    assert_eq!(
        commands(install::uninstall_first(), vec![&bad, &good]),
        vec!["stop", "delete", "服务已卸载"]
    );
    assert_eq!(
        commands(install::uninstall_first(), vec![&good, &bad]),
        vec!["stop", "delete", "卸载失败（退出码 exit code: 5），请用管理员权限运行"]
    );
}

#[test]
fn machines_tell_of_themselves() {
    let csv = b"\r\n\"N/A\",\"x\"\r\n\"00-11-22-33-44-55\",\"t\"\r\n\"00-11-22-33-44-66\",\"t\"\r\n";
    assert_eq!(ws_client::mac_from_output(true, csv).as_deref(), Some("00-11-22-33-44-55"));
    assert_eq!(ws_client::mac_from_output(false, csv), None);
    assert_eq!(ws_client::mac_from_output(true, b""), None);
    let listing = "HP M403 \r\n\r\n 热敏打印机\r\n".as_bytes();
    assert_eq!(ws_client::printers_from_output(true, listing), vec!["HP M403", "热敏打印机"]);
    assert!(ws_client::printers_from_output(false, listing).is_empty());
}

#[test]
fn agent_configuration_defaults() {
    let config = config::default_config(config::default_station(None, None));
    assert_eq!(config.server.port, 9195);
    assert!(config.server.url.is_empty());
    assert_eq!(config.server.station, "unknown");
    assert_eq!(config.print.printer_name, "ZDesigner ZT231-300dpi ZPL");
    assert_eq!(config::default_station(Some("W".to_string()), Some("L".to_string())), "W");
    assert_eq!(config::default_station(None, Some("L".to_string())), "L");
}

#[test]
fn the_first_readable_configuration_counts() {
    let places = vec![Candidate::Missing, Candidate::Broken, Candidate::Loaded(1), Candidate::Loaded(2)];
    assert_eq!(config::choose_config(places, 9), 1);
    assert_eq!(config::choose_config(vec![Candidate::Missing, Candidate::Broken], 9), 9);
}

#[test]
fn processes_are_started_step_by_step() {
    let path = [
        LaunchStep::QuerySession,
        LaunchStep::QueryToken,
        LaunchStep::DuplicateToken,
        LaunchStep::StdinPipe,
        LaunchStep::StderrPipe,
        LaunchStep::StartProcess,
        LaunchStep::Running,
    ];
    for i in 0..6 {
        assert_eq!(user_session::launch_step(path[i], true).0, path[i + 1]);
    }
    assert_eq!(user_session::launch_step(path[0], false).0, LaunchStep::NoSession);
    assert_eq!(user_session::launch_step(path[1], false).0, LaunchStep::NoSession);
    for i in 2..6 {
        assert_eq!(user_session::launch_step(path[i], false).0, LaunchStep::Failed);
    }
    let closed = user_session::launch_step(LaunchStep::StartProcess, true).1;
    assert!(closed.user_token && closed.stdin_read && closed.stderr_write);
    assert!(!closed.stdin_write && !closed.stderr_read && !closed.token);
    let closed = user_session::launch_step(LaunchStep::StderrPipe, false).1;
    assert!(closed.user_token && closed.stdin_read && closed.stdin_write && !closed.stderr_read);
    assert_eq!(
        user_session::launch_failure(LaunchStep::StartProcess, "5"),
        "CreateProcessAsUserW 失败（错误码 5）"
    );
    assert_eq!(
        user_session::launch_failure(LaunchStep::DuplicateToken, "5"),
        "DuplicateTokenEx 失败（错误码 5）"
    );
    assert_eq!(user_session::launch_failure(LaunchStep::StdinPipe, ""), "CreatePipe(stdin) 失败");
    assert_eq!(user_session::launch_failure(LaunchStep::StderrPipe, ""), "CreatePipe(stderr) 失败");
    assert!(user_session::is_session(1));
    assert!(!user_session::is_session(u32::MAX));
    assert_eq!(user_session::exit_code_of(2), 2);
    assert_eq!(user_session::exit_code_of(u32::MAX), -1);
    assert_eq!(user_session::exit_code_of(0x8000_0000), i32::MIN);
}

#[test]
fn the_service_is_installed_and_removed() {
    assert_eq!(install::command_of(Some("install")), install::Command::Install);
    assert_eq!(install::command_of(Some("uninstall")), install::Command::Uninstall);
    assert_eq!(install::command_of(Some("run")), install::Command::Run);
    assert_eq!(install::command_of(Some("x")), install::Command::Service);
    assert_eq!(install::command_of(None), install::Command::Service);
    assert_eq!(
        install::create_arguments("C:\\a b.exe"),
        vec!["create", "print-agent", "binPath=", "\"C:\\a b.exe\"", "start=", "auto", "DisplayName=", "标签打印代理"]
    );
    assert_eq!(install::describe_arguments()[0], "description");
    assert_eq!(install::failure_arguments()[5], "restart/5000/restart/10000/restart/30000");
    let good = install::CommandEnd::Ended { success: true, status: "exit code: 0".to_string() };
    let bad = install::CommandEnd::Ended { success: false, status: "exit code: 5".to_string() };
    let none = install::CommandEnd::NotStarted("no sc.exe".to_string());
    assert_eq!(
        install::service_install(&good).unwrap(),
        "服务已安装（开机自启，崩溃自动重启）。启动命令: sc start print-agent"
    );
    assert_eq!(
        install::service_install(&bad).unwrap_err(),
        "安装失败（退出码 exit code: 5），请用管理员权限运行"
    );
    assert_eq!(install::service_install(&none).unwrap_err(), "安装失败: no sc.exe");
    assert_eq!(install::service_uninstall(&good).unwrap(), "服务已卸载");
    assert_eq!(
        install::service_uninstall(&bad).unwrap_err(),
        "卸载失败（退出码 exit code: 5），请用管理员权限运行"
    );
    assert_eq!(install::service_uninstall(&none).unwrap_err(), "卸载失败: no sc.exe");
}
