use base64::engine::general_purpose;
use base64::Engine;
use qr_server::browser;
use qr_server::codec;
use qr_server::context;
use qr_server::err::CustomError;
use qr_server::json;
use qr_server::json::Json;
use qr_server::local;
use qr_server::local::use_chrome_capture_screenshot as chrome;
use qr_server::page;
use qr_server::service::agent_browser;

const SAMPLE_QR: &str = "M001|L001|O001|10|V001|2026-08-07|B001";

type Fields = serde_json::Map<String, serde_json::Value>;

fn sample_fields() -> Vec<(String, Json)> {
    vec![
        ("kind".to_string(), Json::Number(serde_json::Number::from(0))),
        ("customer_name".to_string(), Json::Text("测试客户".to_string())),
        ("part_no".to_string(), Json::Text("P-001".to_string())),
        ("material_name".to_string(), Json::Text("测试物料".to_string())),
        ("qr_string".to_string(), Json::Text(SAMPLE_QR.to_string())),
        ("is_return".to_string(), Json::Bool(false)),
    ]
}

fn sample_label() -> Json {
    Json::Object(sample_fields())
}

fn sample_with(key: &str, value: Json) -> Json {
    let mut fields = sample_fields();
    fields.push((key.to_string(), value));
    Json::Object(fields)
}

fn render(template: &str, fields: &Fields) -> String {
    let mut tera = tera::Tera::default();
    tera.add_raw_template("t", template).expect("add raw template");
    let context = tera::Context::from_serialize(fields).expect("context");
    tera.render("t", &context).expect("render")
}

fn decoded(uri: &str, prefix: &str) -> Vec<u8> {
    general_purpose::STANDARD
        .decode(uri.strip_prefix(prefix).expect("prefix"))
        .expect("base64")
}

#[test]
fn agent_browser_renders_custom_fields_from_request() {
    let label = sample_with("custom_field", Json::Text("自定义值".to_string()));
    let template = "{{ custom_field }}|{{ count }}|{{ part_no }}";
    let fields = agent_browser::build_template_context(&label, "").expect("build context with custom field");
    assert_eq!(render(template, &fields), "自定义值|10|P-001");
    let fields = local::agent_browser::build_template_context(SAMPLE_QR, &label)
        .expect("build context with custom field");
    assert_eq!(render(template, &fields), "自定义值|10|P-001");
}

#[test]
fn use_chrome_capture_screenshot_renders_custom_fields_from_request() {
    let label = sample_with("custom_field", Json::Text("自定义值".to_string()));
    let fields = chrome::build_template_context(&label, "").expect("build context with custom field");
    assert_eq!(
        render("{{ custom_field }}|{{ count }}|{{ part_no }}", &fields),
        "自定义值|10|P-001"
    );
}

#[test]
fn agent_browser_renders_ternary_expression_with_bool_field() {
    let template = r#"{{ "回" if is_return else "" }}"#;
    let fields =
        agent_browser::build_template_context(&sample_with("is_return", Json::Bool(true)), "").expect("build context");
    assert_eq!(render(template, &fields), "回");
    let fields =
        agent_browser::build_template_context(&sample_with("is_return", Json::Bool(false)), "").expect("build context");
    assert_eq!(render(template, &fields), "");
}

#[test]
fn use_chrome_capture_screenshot_renders_ternary_expression_with_bool_field() {
    let template = r#"{{ "回" if is_return else "" }}"#;
    let fields = chrome::build_template_context(&sample_with("is_return", Json::Bool(true)), "").expect("build context");
    assert_eq!(render(template, &fields), "回");
    let fields = chrome::build_template_context(&sample_with("is_return", Json::Bool(false)), "").expect("build context");
    assert_eq!(render(template, &fields), "");
}

#[test]
fn agent_browser_missing_template_variable_renders_as_empty() {
    let template = "{{ part_no }}|{{ not_in_request }}";
    let fields = agent_browser::build_template_context(&sample_label(), template).expect("build context");
    assert_eq!(render(template, &fields), "P-001|");
}

#[test]
fn use_chrome_capture_screenshot_missing_template_variable_renders_as_empty() {
    let template = "{{ part_no }}|{{ not_in_request }}";
    let fields = chrome::build_template_context(&sample_label(), template).expect("build context");
    assert_eq!(render(template, &fields), "P-001|");
}

#[test]
fn renders_qr_and_barcode_variables() {
    let template = "{{ _qr_order_no | safe }}#{{ _bar_order_no | safe }}";
    let fields = agent_browser::build_template_context(&sample_label(), template).expect("build context");
    let rendered = render(template, &fields);
    let parts: Vec<&str> = rendered.split('#').collect();
    assert!(parts[0].contains("data:image/png;base64,"));
    assert!(parts[1].contains("data:image/png;base64,"));
}

#[test]
fn barcode_data_uri_generates_png() {
    let uri = codec::barcode_data_uri("123456").expect("barcode should encode");
    let bytes = decoded(&uri, "data:image/png;base64,");
    assert_eq!(&bytes[..8], b"\x89PNG\r\n\x1a\n");
}

#[test]
fn agent_browser_rejects_qr_string_with_too_few_segments() {
    let label = sample_with("qr_string", Json::Text("too-short".to_string()));
    assert!(agent_browser::build_template_context(&label, "").is_err());
    assert!(local::agent_browser::build_template_context("too-short", &sample_label()).is_err());
}

#[test]
fn use_chrome_capture_screenshot_rejects_qr_string_with_too_few_segments() {
    let label = sample_with("qr_string", Json::Text("too-short".to_string()));
    assert!(chrome::build_template_context(&label, "").is_err());
}

#[test]
fn agent_browser_renders_split_variable_with_custom_separator() {
    let template = "{{ _x_qr_string_7c_6 }}|{{ _x_date_2d_1 }}";
    let fields = agent_browser::build_template_context(&sample_label(), template).expect("build context");
    assert_eq!(render(template, &fields), "B001|08");
}

#[test]
fn use_chrome_capture_screenshot_renders_split_variable_with_custom_separator() {
    let template = "{{ _x_qr_string_7c_6 }}|{{ _x_date_2d_1 }}";
    let fields = chrome::build_template_context(&sample_label(), template).expect("build context");
    assert_eq!(render(template, &fields), "B001|08");
}

#[test]
fn agent_browser_encodes_rendered_template_as_html_data_url() {
    let data_url = codec::html_data_url("<table id=\"app\"></table>");
    assert_eq!(
        decoded(&data_url, "data:text/html;base64,"),
        b"<table id=\"app\"></table>"
    );
}

#[test]
fn use_chrome_capture_screenshot_encodes_rendered_template_as_html_data_url() {
    let data_url = codec::html_data_url("<table></table>");
    assert_eq!(decoded(&data_url, "data:text/html;base64,"), b"<table></table>");
}

#[test]
fn agent_browser_encodes_qr_code_as_png_data_uri_without_a_file() {
    let data_uri =
        codec::qr_code_data_uri("M001|L001|O001|10|V001|2026-08-07|B001").expect("QR code should encode");
    let png_bytes = decoded(&data_uri, "data:image/png;base64,");
    assert_eq!(&png_bytes[..8], b"\x89PNG\r\n\x1a\n");
}

#[test]
fn use_chrome_capture_screenshot_encodes_qr_code_as_png_data_uri_without_a_file() {
    let data_uri = codec::qr_code_data_uri(SAMPLE_QR).expect("QR code should encode");
    let png_bytes = decoded(&data_uri, "data:image/png;base64,");
    assert_eq!(&png_bytes[..8], b"\x89PNG\r\n\x1a\n");
}

#[test]
fn print_query_flag_overrides_config() {
    let default = chrome::LabelQuery { print: None };
    let off = chrome::LabelQuery { print: Some(false) };
    let on = chrome::LabelQuery { print: Some(true) };
    assert!(chrome::should_print(true, &default));
    assert!(!chrome::should_print(false, &default));
    assert!(!chrome::should_print(true, &off));
    assert!(chrome::should_print(true, &on));
    let service_off = agent_browser::LabelQuery { template: None, print: Some(false) };
    let service_default = agent_browser::LabelQuery { template: None, print: None };
    assert!(!agent_browser::should_print(true, &service_off));
    assert!(agent_browser::should_print(true, &service_default));
}

#[test]
fn waits_for_document_images_and_label_layout_before_screenshot() {
    let script = chrome::label_ready_script();
    assert!(script.contains("document.readyState"));
    assert!(script.contains("document.images"));
    assert!(script.contains("getBoundingClientRect"));
    assert!(script.contains("requestAnimationFrame"));
}

#[test]
fn segments_prevail_over_request_fields() {
    let label = sample_with("order_no", Json::Text("other".to_string()));
    let fields = agent_browser::build_template_context(&label, "{{ order_no }}").expect("context");
    assert_eq!(fields["order_no"], "O001");
    let fields = chrome::build_template_context(&label, "").expect("context");
    assert_eq!(fields["order_no"], "O001");
    let fields = local::agent_browser::label_context(&label).expect("context");
    assert_eq!(fields["order_no"], "O001");
    let keys = ["material_no", "lot_no", "order_no", "count", "vender_code", "date", "box_no"];
    for (key, value) in keys.iter().zip(SAMPLE_QR.split('|')) {
        assert_eq!(fields[*key], value);
    }
}

#[test]
fn native_types_reach_the_template_or_become_texts() {
    let fields = agent_browser::build_template_context(&sample_label(), "").expect("context");
    assert_eq!(fields["kind"], serde_json::Value::from(0));
    assert_eq!(fields["is_return"], serde_json::Value::Bool(false));
    let fields = local::agent_browser::build_template_context(SAMPLE_QR, &sample_label()).expect("context");
    assert_eq!(fields["kind"], "0");
    assert_eq!(fields["is_return"], "false");
}

#[test]
fn arrays_objects_and_nulls_are_left_out() {
    let label = json::parse(r#"{"a":[1],"b":{"c":1},"d":null,"e":1.5,"e":2}"#).unwrap();
    let fields = agent_browser::build_template_context(&label, "").expect("context");
    assert!(!fields.contains_key("a"));
    assert!(!fields.contains_key("b"));
    assert!(!fields.contains_key("d"));
    assert_eq!(fields["e"], serde_json::Value::from(2));
}

#[test]
fn qr_text_is_optional_for_the_service_only() {
    let label = json::parse(r#"{"part_no":"P-9"}"#).unwrap();
    let fields = agent_browser::build_template_context(&label, "{{ part_no }}{{ lot_no }}").expect("context");
    assert_eq!(fields["qr_code"], "");
    assert_eq!(fields["lot_no"], "");
    match chrome::build_template_context(&label, "") {
        Err(CustomError::OtherLibraryError(m)) => assert_eq!(m, "missing qr_string"),
        _ => panic!("missing qr_string must fail"),
    }
    match local::agent_browser::label_context(&label) {
        Err(CustomError::OtherLibraryError(m)) => assert_eq!(m, "missing qr_string"),
        _ => panic!("missing qr_string must fail"),
    }
}

#[test]
fn too_few_segments_are_told() {
    match context::segments_of("a|b") {
        Err(e) => assert_eq!(
            e.to_text(),
            "OtherLibraryError: qr_string 分段不足（需要 7 段）: a|b"
        ),
        Ok(_) => panic!("two segments are too few"),
    }
}

#[test]
fn odd_split_variables() {
    let template = "{{ _x_qr_string_7c_99 }}{{ _x_nothing_7c_0 }}{{ _x_qr_string_zz_0 }}{{ _x_short }}{{ _x_material_no_+3_0 }}";
    let mut fields = context::fields_of_label(&sample_label(), false);
    fields.insert("material_no".to_string(), serde_json::Value::from("a\u{3}b"));
    context::apply_split_variables(&mut fields, template);
    assert_eq!(fields["_x_qr_string_7c_99"], "");
    assert_eq!(fields["_x_nothing_7c_0"], "");
    assert!(!fields.contains_key("_x_qr_string_zz_0"));
    assert!(!fields.contains_key("_x_short"));
    assert_eq!(fields["_x_material_no_+3_0"], "a");
}

#[test]
fn split_variables_take_long_separators() {
    let label = json::parse(r#"{"v":"a中b中c"}"#).unwrap();
    let fields = agent_browser::build_template_context(&label, "{{ _x_v_e4b8ad_2 }}").expect("context");
    assert_eq!(fields["_x_v_e4b8ad_2"], "c");
}

#[test]
fn images_of_missing_fields_are_empty() {
    let template = "{{ _qr_absent | safe }}{{ _bar_absent }}{{ _bar_name | safe }}";
    let label = json::parse(r#"{"name":"中文"}"#).unwrap();
    let fields = agent_browser::build_template_context(&label, template).expect("context");
    assert_eq!(fields["_qr_absent"], "");
    assert_eq!(fields["_bar_absent"], "");
    // Code 128 holds no Chinese characters
    assert_eq!(fields["_bar_name"], "");
}

#[test]
fn image_tags_carry_the_data_uri() {
    assert_eq!(
        context::image_tag(Ok("u".to_string())),
        "<img src=\"u\" style=\"width:100%;height:100%;object-fit:contain\">"
    );
    assert_eq!(context::image_tag(Err(CustomError::PrinterNoFound)), "");
}

#[test]
fn filling_keeps_what_is_there() {
    let mut fields = Fields::new();
    fields.insert("a".to_string(), serde_json::Value::from(1));
    context::fill_missing_variables(&mut fields, "{{ a }}{{b}}{{ c | safe }}{{ 1d }}{{ _x_e }}{{ f ");
    assert_eq!(fields["a"], serde_json::Value::from(1));
    assert_eq!(fields["b"], "");
    assert_eq!(fields.len(), 2);
}

#[test]
fn placeholders_are_read_from_left_to_right() {
    let chars: Vec<char> = "x{{ a }}y{{b}}{{ c".chars().collect();
    let open: Vec<char> = "{{".chars().collect();
    let tags: Vec<String> = context::tags_of(&chars, &open)
        .into_iter()
        .map(|t| t.into_iter().collect())
        .collect();
    assert_eq!(tags, vec!["a".to_string(), "b".to_string()]);
}

#[test]
fn pages_are_rendered_and_escaped() {
    let label = json::parse(r#"{"name":"<b>"}"#).unwrap();
    let page = agent_browser::label_page(&label, "<div id=\"app\">{{ name }}</div>").expect("page");
    assert_eq!(page, "<div id=\"app\">&lt;b&gt;</div>");
    match agent_browser::label_page(&label, "{{ name | no_such_filter }}") {
        Err(CustomError::TeraError(_)) => {}
        _ => panic!("an unknown filter must fail"),
    }
    let page = chrome::label_page(&sample_label(), "", "{{ box_no }}").expect("page");
    assert_eq!(page, "B001");
    let page = local::agent_browser::label_page(&sample_label(), "{{ kind }}").expect("page");
    assert_eq!(page, "0");
}

#[test]
fn templates_may_sort_what_they_split() {
    let label = json::parse(r#"{"v":"c,a,b"}"#).unwrap();
    let sorted = "<style>a[b]{c:d}</style>{# [ #}{{ v | split(pat=\",\") | sort | join(sep=\"[{\") }}";
    assert_eq!(
        agent_browser::label_page(&label, sorted).unwrap(),
        "<style>a[b]{c:d}</style>a[{b[{c"
    );
    let text = "{{ v }} | sort [[1]]";
    assert_eq!(agent_browser::label_page(&label, text).unwrap(), "c,a,b | sort [[1]]");
    for (template, page) in [
        ("{{[1]|sort}}", "[1]"),
        ("{{ [2, 1] | sort }}", "[1, 2]"),
        ("{{ [v, \"a]\"] | sort | join(sep=\" \") }}", "a] c,a,b"),
        ("{{ {\"b\": 1, \"a\": 2} | keys | sort | join }}", "ab"),
        (
            "{% set p = v | split(pat=\",\") | sort %}{{ p[0] }}{% for i in [1, 2] %}{{ p[i] }}{% endfor %}",
            "abc",
        ),
        ("{{ pairs }}{{ [1] | sort }}", "[1]"),
    ] {
        assert_eq!(agent_browser::label_page(&label, template).unwrap(), page, "{template}");
    }
}

#[test]
fn powers_and_precisions_are_rendered() {
    let label = json::parse(r#"{"n":1.25}"#).unwrap();
    let page = agent_browser::label_page(&label, "{{ 2 ** 3 }} {{ n | round(precision=1, method=\"floor\") }}");
    assert_eq!(page.unwrap(), "8 1.2");
}

#[test]
fn templates_may_not_sort_lists_of_lists() {
    let label = json::parse("{}").unwrap();
    for template in [
        "{{ [[2], [1], [\"x\"]] | sort }}",
        "{% set a = [[2]] %}{{ a|\n\tsort }}",
        "{{ \"}}\" ~ {\"a\": [1]} | sort }}",
        "{{ __tera_context | pairs | group_by(attribute=\"1\") | pairs | sort }}",
        "{{ {\"a\": 1} | pairs | sort }}",
        "{{ a | group_by(attribute=\"x\") | values | sort }}",
        "{{ __tera_context | values | sort }}",
        "{{ [v | split(pat=\",\"), range(end=2)] | sort }}",
        "{{ [range(end=2)] | sort }}",
        "{% set a = v | split(pat=\",\") %}{{ [a, a] | sort }}",
        "{% set a = [1] %}{{ v if\"x\"else[a] | sort }}",
        "{% set a = [1] %}{{ 1if[a] | first else 2 | sort }}",
        "{% raw %}{{ \" {% endraw %}{{ [[1]] | sort }}",
        "{{ x | sort }}{% component c(...rest) %}{% endcomponent c %}",
    ] {
        assert!(!page::check_sorting(template), "{template}");
        match agent_browser::label_page(&label, template) {
            Err(CustomError::TeraError(m)) => assert_eq!(m, "the template may sort lists of lists"),
            _ => panic!("{template}"),
        }
    }
    for template in ["{{ a[0] }}", "{{ a | sort }}", "{{ 'a' | sort", "{# {{ [1] | sort }} #}", "| sort {{ [1] }}"] {
        assert!(page::check_sorting(template), "{template}");
    }
}

#[test]
fn broken_templates_are_refused_before_the_first_label() {
    assert!(page::check_template("{{ a }}").is_ok());
    match page::check_template("{{ a ") {
        Err(CustomError::TeraError(_)) => {}
        _ => panic!("an open placeholder must fail"),
    }
    assert!(agent_browser::start_request("{% if %}", 1, false).is_err());
    assert!(agent_browser::start_request("ok", 1, false).is_ok());
}

#[test]
fn qr_code_of_an_overlong_text_fails() {
    let long = "字".repeat(2000);
    match codec::qr_code_data_uri(&long) {
        Err(CustomError::QrError(m)) => assert_eq!(m, "data too long"),
        _ => panic!("the text is too long for a QR code"),
    }
    let e = codec::qr_code_data_uri(&long).err().unwrap();
    assert_eq!(e.error_response().status, 400);
}

#[test]
fn bar_codes_of_bad_contents_fail() {
    match codec::barcode_data_uri("é") {
        Err(CustomError::OtherLibraryError(m)) => assert!(m.starts_with("条形码内容非法: ")),
        _ => panic!("no character of Code 128"),
    }
    assert!(codec::barcode_data_uri("ĆAB").is_err());
    assert!(codec::barcode_data_uri("Ć1234").is_ok());
}

#[test]
fn bar_codes_are_as_long_as_their_checksum_allows() {
    let refused = |content: &str| match codec::barcode_data_uri(content) {
        Err(CustomError::OtherLibraryError(m)) => m,
        _ => String::new(),
    };
    assert!(codec::barcode_data_uri(&"A".repeat(6400)).is_ok());
    assert!(codec::barcode_data_uri(&" ".repeat(20000)).is_ok());
    // the tilde has the number 94, and 104 + 94 * n * (n + 1) / 2 has to fit
    assert!(codec::barcode_data_uri(&"~".repeat(6759)).is_ok());
    assert_eq!(refused(&"~".repeat(6760)), "条形码内容非法: checksum overflow");
    let mut broken = "~".repeat(6760);
    broken.push('é');
    assert_eq!(refused(&broken), "条形码内容非法: Barcode data is invalid");
    // pairs of digits are one symbol each
    let mut pairs = "Ć".to_string();
    pairs.push_str(&"99".repeat(6586));
    assert!(codec::barcode_data_uri(&pairs).is_ok());
    pairs.push_str("99");
    assert_eq!(refused(&pairs), "条形码内容非法: checksum overflow");
}

#[test]
fn bar_code_symbols_are_counted_in_each_set() {
    let fits = |data: &str| codec::has_checksum(&data.chars().collect::<Vec<char>>());
    let mixed = "À\u{1}_ƁaÀ\u{17c}ĆŹ12Ɓ~÷";
    assert!(fits(mixed));
    assert!(codec::barcode_data_uri(mixed).is_ok());
    // data that is refused has no checksum to overflow
    let mut long = "Ɓ".to_string();
    long.push_str(&"~".repeat(8000));
    assert!(!fits(&long));
    long.push('中');
    assert!(fits(&long));
}

#[test]
fn qr_and_bar_code_pictures_differ() {
    let qr = codec::qr_code_data_uri("123456").unwrap();
    let bar = codec::barcode_data_uri("123456").unwrap();
    assert!(qr != bar);
    assert!(qr != codec::qr_code_data_uri("123457").unwrap());
}

#[test]
fn pictures_and_bars_are_drawn_from_given_data() {
    let picture = codec::GreyPicture { width: 2, height: 1, pixels: vec![0, 255] };
    let uri = codec::picture_data_uri(Ok(picture)).unwrap();
    let bytes = decoded(&uri, "data:image/png;base64,");
    let image = image::load_from_memory(&bytes).unwrap().to_luma8();
    assert_eq!(image.dimensions(), (2, 1));
    assert_eq!(image.into_raw(), vec![0, 255]);
    match codec::picture_data_uri(Err("bad".to_string())) {
        Err(CustomError::QrError(m)) => assert_eq!(m, "bad"),
        _ => panic!("the error is passed on"),
    }
    let uri = codec::bars_data_uri(Ok(vec![1, 0, 1])).unwrap();
    let bytes = decoded(&uri, "data:image/png;base64,");
    assert_eq!(image::load_from_memory(&bytes).unwrap().height(), 60);
    match codec::bars_data_uri(Err("bad".to_string())) {
        Err(CustomError::OtherLibraryError(m)) => assert_eq!(m, "条形码内容非法: bad"),
        _ => panic!("the error is passed on"),
    }
}

#[test]
fn browser_command_line() {
    let arguments = browser::browser_arguments("<p>", "C:\\a\\b.png");
    assert_eq!(
        arguments,
        vec![
            "--session",
            "qr-service-agent-browser",
            "batch",
            "--bail",
            "set viewport 1200 800",
            "open data:text/html;base64,PHA+",
            "wait #app",
            "screenshot #app C:/a/b.png",
        ]
    );
    assert_eq!(
        browser::temp_screenshot_name(7, 1234567890123456789),
        "qr_service_agent_browser_7_1234567890123456789.png"
    );
}

#[test]
fn browser_failures_are_told() {
    let exit = browser::BrowserExit::NotStarted("gone".to_string());
    assert_eq!(
        browser::check_exit(&exit, "a.exe").unwrap_err().to_text(),
        "OtherLibraryError: failed to start agent-browser at a.exe: gone"
    );
    let exit = browser::BrowserExit::Ended { success: false, status: "exit status: 1".to_string() };
    assert_eq!(
        browser::check_exit(&exit, "a.exe").unwrap_err().to_text(),
        "OtherLibraryError: agent-browser failed to render label with status exit status: 1"
    );
    let exit = browser::BrowserExit::Ended { success: true, status: "exit status: 0".to_string() };
    assert!(browser::check_exit(&exit, "a.exe").is_ok());
}

#[test]
fn a_failed_picture_is_tried_again_once() {
    let (mut run, step) = chrome::capture_start(false);
    assert!(matches!(step, chrome::CaptureStep::OpenPage));
    assert!(matches!(chrome::page_opened(&mut run, Ok(())), chrome::CaptureStep::Capture));
    let step = chrome::picture_taken(&mut run, Err("crash".to_string()));
    assert!(matches!(step, chrome::CaptureStep::OpenPage));
    assert!(matches!(chrome::page_opened(&mut run, Ok(())), chrome::CaptureStep::Capture));
    match chrome::picture_taken(&mut run, Err("again".to_string())) {
        chrome::CaptureStep::Fail(e) => assert_eq!(e.to_text(), "AnyhowError: again"),
        _ => panic!("the second failure is the answer"),
    }
    let (mut run, step) = chrome::capture_start(true);
    assert!(matches!(step, chrome::CaptureStep::Capture));
    match chrome::picture_taken(&mut run, Ok(vec![1])) {
        chrome::CaptureStep::Answer(image) => assert_eq!(image, vec![1]),
        _ => panic!("the picture is the answer"),
    }
    let (mut run, _) = chrome::capture_start(false);
    match chrome::page_opened(&mut run, Err("no browser".to_string())) {
        chrome::CaptureStep::Fail(e) => assert_eq!(e.to_text(), "AnyhowError: no browser"),
        _ => panic!("without a page there is no picture"),
    }
}

#[test]
fn chrome_is_started_with_its_own_data() {
    assert_eq!(chrome::user_data_name(12), "qr-service-chrome-12");
    assert_eq!(chrome::browser_arguments()[0], "--disable-gpu");
    assert_eq!(chrome::browser_arguments().len(), 5);
}
