use qr_server::err::CustomError;
use qr_server::json;
use qr_server::local::config;
use qr_server::local::designer;
use qr_server::local::label_info::LabelInfo;
use qr_server::local::master;
use qr_server::local::print;
use qr_server::local::typst;

#[test]
fn print_print_script_matches_csharp_logic() {
    let script = print::build_print_script("ZDesigner ZT231-300dpi ZPL", 416, 1169);
    assert!(script.contains("PrinterName = 'ZDesigner ZT231-300dpi ZPL'"));
    assert!(script.contains("PaperSize('CustomSize', 416, 1169)"));
    assert!(script.contains("($area.Width - 28)"));
    assert!(script.contains("($area.Height - $h - 780) / 2"));
    assert!(script.contains("StandardPrintController"));
}

#[test]
fn print_print_script_escapes_single_quotes() {
    let script = print::build_print_script("Bob's Printer", 416, 1169);
    assert!(script.contains("PrinterName = 'Bob''s Printer'"));
}

#[test]
fn local_scripts_read_and_remove_the_picture() {
    let script = print::build_print_script("P", 1, 2);
    assert!(script.contains("[System.IO.File]::ReadAllBytes($env:QR_LABEL_IMAGE)"));
    assert!(script.contains("$pd.add_PrintPage({\n"));
    assert!(script.ends_with("Remove-Item -LiteralPath $env:QR_LABEL_IMAGE -Force;"));
    assert_eq!(print::IMAGE_PATH_ENV, "QR_LABEL_IMAGE");
    assert_eq!(print::picture_file_name(3, 4), "qr-label-3-4.png");
}

fn sample_request() -> designer::SaveTemplateRequest {
    designer::SaveTemplateRequest {
        json: json::parse(r#"{"panels": [{"width": 150, "height": 80, "printElements": []}]}"#).unwrap(),
        html: "<html><body><div id=\"app\">{{ part_no }}</div></body></html>".to_string(),
    }
}

#[test]
fn rejects_template_without_panels() {
    let mut req = sample_request();
    req.json = json::parse(r#"{"foo": 1}"#).unwrap();
    let err = designer::save_template_files(&req).expect_err("should reject");
    assert!(matches!(err, CustomError::OtherLibraryError(_)));
    req.json = json::parse(r#"{"panels": {}}"#).unwrap();
    assert_eq!(
        designer::save_template_files(&req).unwrap_err().to_text(),
        "OtherLibraryError: 模板 JSON 缺少 panels 数组"
    );
}

#[test]
fn rejects_html_without_app_container() {
    let mut req = sample_request();
    req.html = "<html><body></body></html>".to_string();
    let err = designer::save_template_files(&req).expect_err("should reject");
    assert!(matches!(err, CustomError::OtherLibraryError(_)));
    assert_eq!(err.to_text(), "OtherLibraryError: 模板 HTML 缺少 #app 容器");
}

#[test]
fn saved_templates_are_two_files() {
    let files = designer::save_template_files(&sample_request()).expect("save template files");
    assert!(files.json.contains("\"panels\""));
    assert!(files.json.contains("\n  \"panels\": [\n"));
    assert!(files.html.contains("{{ part_no }}"));
    assert_eq!(
        designer::files_of("h", Err("m".to_string())).unwrap_err().to_text(),
        "OtherLibraryError: 模板 JSON 序列化失败: m"
    );
}

#[test]
fn local_configuration_defaults() {
    let config = config::Config::default();
    assert!(!config.print.enabled);
    assert_eq!(config.print.printer_name, "ZDesigner ZT231-300dpi ZPL");
    assert_eq!(f64::from_bits(config.print.paper_width.bits), 10.57);
    assert_eq!(f64::from_bits(config.print.paper_height.bits), 29.70);
}

#[test]
fn segments_become_fields() {
    let info = master::split_info("M|L|O|1|V|D|B|rest");
    assert_eq!(info.material_no, "M");
    assert_eq!(info.lot_no, "L");
    assert_eq!(info.order_no, "O");
    assert_eq!(info.count, "1");
    assert_eq!(info.vender_code, "V");
    assert_eq!(info.date, "D");
    assert_eq!(info.box_no, "B");
    assert!(info.qr_code.is_none());
    let page = master::label_page("M|L|O|1|V|D|B", "{{ box_no }} {{ qr_code }}").unwrap();
    assert!(page.starts_with("B data:image"));
}

#[test]
fn drawn_pictures_are_decoded() {
    assert_eq!(master::read_picture(Some("data:image/png;base64,cG5n")).unwrap(), b"png");
    assert_eq!(master::read_picture(Some("cG5n")).unwrap(), b"png");
    match master::read_picture(Some("data:image/png;base64,*")) {
        Err(CustomError::IOError(m)) => assert!(m.starts_with("Failed to decode base64: ")),
        _ => panic!("no base64"),
    }
    assert_eq!(
        master::read_picture(None).unwrap_err().to_text(),
        "OtherLibraryError: html2canvas did not return an image"
    );
    assert_eq!(
        master::picture_of(Err("m".to_string())).unwrap_err().to_text(),
        "IOError: Failed to decode base64: m"
    );
}

fn line(text: &str) -> typst::WatchEvent {
    typst::WatchEvent::Line(text.to_string())
}

#[test]
fn compilations_are_counted() {
    let state = typst::watch_start();
    let step = typst::watch_step(state, &line("[12:00:00] compiling ..."));
    assert_eq!(step.state.seq, 0);
    assert!(step.publish.is_none());
    let step = typst::watch_step(step.state, &line("[12:00:00] compiled with errors"));
    assert_eq!(step.state.seq, 1);
    assert!(matches!(step.publish, Some(Err(ref m)) if m == "typst 模板编译失败"));
    let step = typst::watch_step(step.state, &line("error: index out of bounds"));
    assert!(step.log_line);
    assert!(!step.stop);
    let step = typst::watch_step(step.state, &line("watching main.typ"));
    assert!(!step.state.in_error_block);
    let step = typst::watch_step(step.state, &line("something"));
    assert!(!step.log_line);
    let step = typst::watch_step(step.state, &line("compiled successfully in 5ms"));
    assert_eq!(step.state.seq, 2);
    assert!(matches!(step.publish, Some(Ok(()))));
    assert!(typst::is_newer(step.state.seq, 1));
    assert!(!typst::is_newer(step.state.seq, 2));
    let step = typst::watch_step(step.state, &typst::WatchEvent::Ended);
    assert_eq!(step.state.seq, 2);
    assert!(step.stop);
    assert!(matches!(step.publish, Some(Err(ref m)) if m == "typst watch 进程已退出"));
    let step = typst::watch_step(step.state, &typst::WatchEvent::Failed);
    assert!(step.stop);
    assert!(step.publish.is_none());
    assert_eq!(typst::kind_of_line("x watching"), typst::LineKind::Other);
}

#[test]
fn waits_for_a_compilation_end() {
    assert!(typst::judge_wait(typst::CompileWait::Compiled(Ok(()))).is_ok());
    let told = |w| typst::judge_wait(w).unwrap_err().to_text();
    assert_eq!(told(typst::CompileWait::TimedOut), "OtherLibraryError: typst 编译超时");
    assert_eq!(told(typst::CompileWait::Closed), "OtherLibraryError: typst watch 通道已关闭");
    assert_eq!(told(typst::CompileWait::Compiled(Err("m".to_string()))), "OtherLibraryError: m");
}

#[test]
fn label_data_has_fixed_fields() {
    let label = LabelInfo {
        kind: 0,
        customer_name: "c".to_string(),
        part_no: "p".to_string(),
        material_name: "m".to_string(),
        qr_string: "q".to_string(),
        is_return: false,
    };
    assert_eq!(label.part_no, "p");
}

#[test]
fn compilations_are_counted_over_all_lines() {
    let lines = [
        "watching main.typ",
        "compiled successfully in 50ms",
        "error: x",
        "compiling ...",
        "compiled with errors",
        "error: unknown variable",
        "compiled successfully",
    ];
    let mut state = typst::watch_start();
    let mut told = (0, true);
    let mut history = Vec::new();
    for line in lines {
        let step = typst::watch_step(state, &typst::WatchEvent::Line(line.to_string()));
        state = step.state;
        if let Some(result) = step.publish {
            told = (state.seq, result.is_ok());
        }
        history.push(told);
    }
    assert_eq!(
        history,
        vec![(0, true), (1, true), (1, true), (1, true), (2, false), (2, false), (3, true)]
    );
}
