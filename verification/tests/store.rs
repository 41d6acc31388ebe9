use qr_server::err::CustomError;
use qr_server::json;
use qr_server::json::Json;
use qr_server::service::designer;
use qr_server::service::template_store as store;
use qr_server::service::template_store::{AgentSettings, PaperLength, TemplateRow, TemplateStore};

const NOW: i64 = 1_700_000_000;

fn cm(value: f64) -> Option<PaperLength> {
    Some(PaperLength { bits: value.to_bits() })
}

fn seed_test_default(s: &mut TemplateStore) {
    store::seed_default(
        s,
        store::DEFAULT_TEMPLATE_NAME,
        r#"{"panels":[{"width":150,"height":70,"printElements":[]}]}"#,
        r#"<div id="app">{{ part_no }}</div>"#,
        NOW,
    )
    .expect("seed default");
}

fn seeded() -> TemplateStore {
    let mut s = TemplateStore::new();
    seed_test_default(&mut s);
    s
}

fn same(a: &Option<AgentSettings>, b: &AgentSettings) -> bool {
    match a {
        Some(a) => {
            a.printer == b.printer && a.paper_width == b.paper_width && a.paper_height == b.paper_height
        }
        None => false,
    }
}

#[test]
fn agent_settings_override_roundtrip() {
    let mut s = TemplateStore::new();
    assert!(store::get_agent_settings(&s, "S1").is_none());
    let settings = AgentSettings {
        printer: Some("Zebra A".to_string()),
        paper_width: cm(10.0),
        paper_height: None,
    };
    store::set_agent_settings(&mut s, "S1", &settings);
    assert!(same(&store::get_agent_settings(&s, "S1"), &settings));
    let updated = AgentSettings {
        printer: Some("Zebra B".to_string()),
        paper_width: None,
        paper_height: cm(7.0),
    };
    store::set_agent_settings(&mut s, "S1", &updated);
    assert!(same(&store::get_agent_settings(&s, "S1"), &updated));
    store::delete_agent_settings(&mut s, "S1");
    assert!(store::get_agent_settings(&s, "S1").is_none());
}

#[test]
fn crud_and_copy_roundtrip() {
    let mut s = seeded();
    let templates = store::list(&s);
    assert_eq!(templates.len(), 1);
    assert!(templates[0].is_default);

    let default = store::get(&s, None).expect("get default");
    assert_eq!(default.name, store::DEFAULT_TEMPLATE_NAME);

    let new_id = store::create(&mut s, "新模板", NOW).expect("create");
    let copied_id = store::copy(&mut s, new_id, NOW).expect("copy");
    let copied = store::get(&s, Some(copied_id)).expect("get copied");
    assert_eq!(copied.name, "新模板 副本");
    assert!(!copied.is_default);

    let panels = Json::Object(vec![("panels".to_string(), Json::Array(vec![]))]);
    store::update(
        &mut s,
        copied_id,
        Some("改名"),
        Some(&panels),
        Some(r#"<div id="app">x</div>"#),
        NOW,
    )
    .expect("update");
    let updated = store::get(&s, Some(copied_id)).expect("get updated");
    assert_eq!(updated.name, "改名");
    assert_eq!(updated.design_json.to_text(), r#"{"panels":[]}"#);

    store::delete(&mut s, copied_id).expect("delete");
    assert_eq!(store::list(&s).len(), 2);
}

#[test]
fn designs_are_read_back_as_they_were_saved() {
    let mut s = seeded();
    let id = store::create(&mut s, "新模板", NOW).unwrap();
    let blank = store::get(&s, Some(id)).unwrap();
    let text = r#"{"a":-0.5,"b":123456789012.345,"c":[1,{"d":null}],"panels":[198.4]}"#;
    let design = json::parse(text).unwrap();
    store::update(&mut s, id, None, Some(&design), None, NOW + 1).unwrap();
    let saved = store::get(&s, Some(id)).unwrap();
    assert_eq!(saved.design_json.to_text(), text);
    assert_eq!(saved.name, blank.name);
    assert_eq!(saved.render_html, blank.render_html);
    assert_eq!(saved.updated_at, NOW + 1);
    let copy = store::copy(&mut s, id, NOW + 2).unwrap();
    let copied = store::get(&s, Some(copy)).unwrap();
    assert_eq!(copied.design_json.to_text(), text);
    assert_eq!(copied.render_html, saved.render_html);
    store::update(&mut s, copy, Some("n"), None, None, NOW + 3).unwrap();
    assert_eq!(store::get(&s, Some(copy)).unwrap().design_json.to_text(), text);
    assert_eq!(store::get(&s, Some(id)).unwrap().updated_at, NOW + 1);
}

#[test]
fn render_html_for_selects_by_id_name_and_default() {
    let mut s = seeded();
    let new_id = store::create(&mut s, "新模板", NOW).expect("create");
    let default = store::get(&s, None).expect("default");

    assert!(store::render_html_for(&s, None).expect("default").contains("{{ part_no }}"));
    assert_eq!(
        store::render_html_for(&s, Some(&default.id.to_string())).expect("by id"),
        store::render_html_for(&s, None).expect("default")
    );
    assert!(store::render_html_for(&s, Some("新模板"))
        .expect("by name")
        .contains("id=\"app\""));
    assert!(store::render_html_for(&s, Some("9999")).is_err());
    assert!(store::render_html_for(&s, Some("不存在")).is_err());
    let _ = new_id;
}

#[test]
fn default_template_cannot_be_deleted() {
    let mut s = seeded();
    let default = store::get(&s, None).expect("get default");
    let err = store::delete(&mut s, default.id).expect_err("delete default should fail");
    assert!(err.to_text().contains("默认模板不能删除"));
}

#[test]
fn set_default_switches_flag() {
    let mut s = seeded();
    let old_default = store::get(&s, None).expect("get default");
    let new_id = store::create(&mut s, "新模板", NOW).expect("create");

    store::set_default(&mut s, new_id, NOW).expect("set default");
    let now_default = store::get(&s, None).expect("get new default");
    assert_eq!(now_default.id, new_id);
    store::delete(&mut s, old_default.id).expect("old default now deletable");
}

#[test]
fn update_rejects_invalid_payload() {
    let mut s = seeded();
    let default = store::get(&s, None).expect("get default");
    let foo = json::parse(r#"{"foo":1}"#).unwrap();
    assert!(store::update(&mut s, default.id, None, Some(&foo), None, NOW).is_err());
    assert!(store::update(&mut s, default.id, None, None, Some("<div></div>"), NOW).is_err());
    assert!(store::update(&mut s, default.id, Some("  "), None, None, NOW).is_err());
    assert!(store::get(&s, Some(9999)).is_err());
}

#[test]
fn the_list_is_ordered() {
    let mut s = seeded();
    let a = store::create(&mut s, "a", 10).unwrap();
    let b = store::create(&mut s, "b", 30).unwrap();
    let c = store::create(&mut s, "c", 30).unwrap();
    let d = store::create(&mut s, "d", 20).unwrap();
    let ids: Vec<i64> = store::list(&s).iter().map(|t| t.id).collect();
    assert_eq!(ids, vec![1, b, c, d, a]);
}

#[test]
fn ids_are_not_handed_out_again() {
    let mut s = seeded();
    let a = store::create(&mut s, "a", NOW).unwrap();
    store::delete(&mut s, a).unwrap();
    let b = store::create(&mut s, "b", NOW).unwrap();
    assert_eq!(b, a + 1);
    let mut s = TemplateStore::restore(Vec::new(), i64::MAX).unwrap();
    match store::create(&mut s, "c", NOW) {
        Err(CustomError::DbError(m)) => assert_eq!(m, "database or disk is full"),
        _ => panic!("no id is left"),
    }
}

#[test]
fn missing_templates_are_told() {
    let mut s = TemplateStore::new();
    assert_eq!(
        store::get(&s, Some(-7)).unwrap_err().to_text(),
        "OtherLibraryError: 模板不存在: -7"
    );
    assert_eq!(
        store::get(&s, None).unwrap_err().to_text(),
        "DbError: Query returned no rows"
    );
    assert_eq!(
        store::render_html_for(&s, None).unwrap_err().to_text(),
        "OtherLibraryError: 模板不存在: <default>"
    );
    assert_eq!(
        store::render_html_for(&s, Some("x")).unwrap_err().to_text(),
        "OtherLibraryError: 模板不存在: x"
    );
    assert_eq!(
        store::create(&mut s, " \u{3000}", NOW).unwrap_err().to_text(),
        "OtherLibraryError: 模板名称不能为空"
    );
    assert!(store::copy(&mut s, 1, NOW).is_err());
    assert!(store::set_default(&mut s, 1, NOW).is_err());
    assert!(store::delete(&mut s, 1).is_err());
    assert!(store::sync_render_file(&s, true).is_err());
    assert!(matches!(store::sync_render_file(&s, false), Ok(None)));
}

fn row(id: i64, design_json: &str) -> TemplateRow {
    TemplateRow {
        id,
        name: "n".to_string(),
        design_json: design_json.to_string(),
        render_html: "<p>".to_string(),
        is_default: true,
        updated_at: NOW,
    }
}

#[test]
fn stores_are_restored_with_ids_in_order() {
    let design = r#"{"panels":[]}"#;
    let mut s = TemplateStore::restore(vec![row(2, design), row(5, design)], 7).unwrap();
    assert_eq!(s.rows().len(), 2);
    assert_eq!(store::create(&mut s, "n", NOW).unwrap(), 8);
    assert!(TemplateStore::restore(vec![row(5, design), row(2, design)], 7).is_none());
    assert!(TemplateStore::restore(vec![row(2, design), row(2, design)], 7).is_none());
    assert!(TemplateStore::restore(vec![row(0, design)], 7).is_none());
    assert!(TemplateStore::restore(vec![row(8, design)], 7).is_none());
    assert!(TemplateStore::restore(Vec::new(), -1).is_none());
}

#[test]
fn broken_designs_are_told() {
    let s = TemplateStore::restore(vec![row(1, "{")], 1).unwrap();
    match store::get(&s, Some(1)) {
        Err(CustomError::JsonError(_)) => {}
        _ => panic!("the design is no JSON document"),
    }
    let mut empty = TemplateStore::new();
    match store::seed_default(&mut empty, "n", "{", "h", NOW) {
        Err(CustomError::OtherLibraryError(m)) => assert!(m.starts_with("种子模板 JSON 非法: ")),
        _ => panic!("the seed is no JSON document"),
    }
    assert_eq!(empty.rows().len(), 0);
}

#[test]
fn names_select_the_newest_template() {
    let mut s = seeded();
    let a = store::create(&mut s, "n", 10).unwrap();
    let b = store::create(&mut s, "n", 20).unwrap();
    store::update(&mut s, a, None, None, Some("<p id=\"app\">a</p>"), 30).unwrap();
    store::update(&mut s, b, None, None, Some("<p id=\"app\">b</p>"), 20).unwrap();
    assert_eq!(store::render_html_for(&s, Some("n")).unwrap(), "<p id=\"app\">a</p>");
    assert_eq!(
        store::render_html_for(&s, Some(&format!("+{b}"))).unwrap(),
        "<p id=\"app\">b</p>"
    );
}

#[test]
fn an_empty_store_is_seeded_once() {
    let mut s = TemplateStore::new();
    let file = store::init(&mut s, r#"{"panels":[]}"#, "<p>", true, NOW).unwrap();
    assert_eq!(file.as_deref(), Some("<p>"));
    assert_eq!(s.rows().len(), 1);
    assert_eq!(s.rows()[0].name, "默认标签模板");
    let file = store::init(&mut s, "{", "<q>", true, NOW).unwrap();
    assert_eq!(file.as_deref(), Some("<p>"));
    assert_eq!(s.rows().len(), 1);
    let file = store::init(&mut s, "{", "<q>", false, NOW).unwrap();
    assert!(file.is_none());
}

#[test]
fn saved_pages_go_to_the_file() {
    assert_eq!(store::write_render_file("<p>", true).as_deref(), Some("<p>"));
    assert!(store::write_render_file("<p>", false).is_none());
    let mut s = seeded();
    let request = designer::UpdateTemplateRequest {
        name: None,
        json: None,
        html: Some("<p id=\"app\"></p>".to_string()),
    };
    let file = designer::update_template(&mut s, "default", &request, true, NOW).unwrap();
    assert_eq!(file.as_deref(), Some("<p id=\"app\"></p>"));
    assert_eq!(designer::get_template(&s, "default").unwrap().render_html, "<p id=\"app\"></p>");
    assert!(designer::update_template(&mut s, "x", &request, true, NOW).is_err());
    let id = store::create(&mut s, "n", NOW).unwrap();
    let file = designer::set_default_template(&mut s, id, true, NOW).unwrap();
    assert!(file.unwrap().contains("id=\"app\""));
    assert_eq!(designer::get_template(&s, "1").unwrap().is_default, false);
}

#[test]
fn parses_template_id() {
    assert_eq!(designer::parse_template_id("default").expect("default"), None);
    assert_eq!(designer::parse_template_id("42").expect("numeric"), Some(42));
    assert!(designer::parse_template_id("abc").is_err());
}

#[test]
fn template_ids_have_limits() {
    assert_eq!(designer::parse_template_id("-9223372036854775808").unwrap(), Some(i64::MIN));
    assert_eq!(
        designer::parse_template_id("9223372036854775808").unwrap_err().to_text(),
        "OtherLibraryError: invalid template id: 9223372036854775808"
    );
}

#[test]
fn page_of_the_default_template_goes_to_the_file() {
    let mut s = seeded();
    let id = store::create(&mut s, "n", NOW).unwrap();
    let page = "<b id=\"app\"></b>";
    store::update(&mut s, id, None, None, Some(page), NOW).unwrap();
    assert_ne!(store::sync_render_file(&s, true).unwrap().as_deref(), Some(page));
    store::set_default(&mut s, id, NOW).unwrap();
    assert_eq!(store::sync_render_file(&s, true).unwrap().as_deref(), Some(page));
}
