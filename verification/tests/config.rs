use qr_server::agent::config as agent;
use qr_server::local::config as local;
use qr_server::service::config as service;
use qr_server::service::template_store::PaperLength;

fn section(text: &str, name: &str) -> toml::Table {
    let table: toml::Table = toml::from_str(text).unwrap();
    match table.get(name) {
        Some(section) => section.as_table().unwrap().clone(),
        None => toml::Table::new(),
    }
}

fn text_in(section: &toml::Table, key: &str, default: String) -> String {
    section.get(key).map_or(default, |v| v.as_str().unwrap().to_string())
}

fn port_in(section: &toml::Table, default: u16) -> u16 {
    section.get("port").map_or(default, |v| v.as_integer().unwrap() as u16)
}

fn flag_in(section: &toml::Table, key: &str, default: bool) -> bool {
    section.get(key).map_or(default, |v| v.as_bool().unwrap())
}

fn length_in(section: &toml::Table, key: &str, default: PaperLength) -> PaperLength {
    section.get(key).map_or(default, |v| PaperLength { bits: v.as_float().unwrap().to_bits() })
}

fn cm(length: &PaperLength) -> f64 {
    f64::from_bits(length.bits)
}

fn service_config(text: &str) -> service::Config {
    let default = service::Config::default();
    let server = section(text, "server");
    let print = section(text, "print");
    service::Config {
        server: service::ServerConfig {
            host: text_in(&server, "host", default.server.host),
            port: port_in(&server, default.server.port),
        },
        print: service::PrintConfig {
            paper_width: length_in(&print, "paper_width", default.print.paper_width),
            paper_height: length_in(&print, "paper_height", default.print.paper_height),
            ..default.print
        },
        template: service::TemplateConfig {
            save_html: flag_in(&section(text, "template"), "save_html", default.template.save_html),
        },
    }
}

fn local_config(text: &str) -> local::Config {
    let default = local::Config::default().print;
    let print = section(text, "print");
    local::Config {
        print: local::PrintConfig {
            enabled: flag_in(&print, "enabled", default.enabled),
            printer_name: text_in(&print, "printer_name", default.printer_name),
            paper_width: length_in(&print, "paper_width", default.paper_width),
            paper_height: length_in(&print, "paper_height", default.paper_height),
        },
    }
}

fn agent_config(text: &str) -> agent::Config {
    let default = agent::default_config(agent::default_station(None, None));
    let server = section(text, "server");
    agent::Config {
        server: agent::ServerConfig {
            port: port_in(&server, default.server.port),
            url: text_in(&server, "url", default.server.url),
            station: text_in(&server, "station", default.server.station),
        },
        print: agent::PrintConfig {
            printer_name: text_in(&section(text, "print"), "printer_name", default.print.printer_name),
        },
    }
}

#[test]
fn defaults_match_csharp_production() {
    let config = agent_config("");
    assert_eq!(config.server.port, 9195);
    assert!(config.server.url.is_empty());
    assert_eq!(config.print.printer_name, "ZDesigner ZT231-300dpi ZPL");
}

#[test]
fn parses_full_config() {
    let config = agent_config("[server]\nport = 8080\n[print]\nprinter_name = \"Test Printer\"\n");
    assert_eq!(config.server.port, 8080);
    assert_eq!(config.print.printer_name, "Test Printer");
}

#[test]
fn server_defaults_lan_reachable_and_parses() {
    let config = service_config("");
    assert_eq!(config.server.host, "0.0.0.0");
    assert_eq!(config.server.port, 9095);
    let config = service_config("[server]\nhost = \"127.0.0.1\"\nport = 8080");
    assert_eq!(config.server.host, "127.0.0.1");
    assert_eq!(config.server.port, 8080);
}

#[test]
fn print_paper_defaults_match_csharp_production() {
    let config = service_config("");
    assert_eq!(cm(&config.print.paper_width), 10.57);
    assert_eq!(cm(&config.print.paper_height), 29.70);
    let config = service_config("[print]\npaper_width = 15.0\npaper_height = 10.0");
    assert_eq!(cm(&config.print.paper_width), 15.0);
    assert_eq!(cm(&config.print.paper_height), 10.0);
}

#[test]
fn template_save_html_defaults_true_and_parses() {
    assert!(service_config("").template.save_html);
    assert!(!service_config("[template]\nsave_html = false").template.save_html);
}

#[test]
fn parse_print_config() {
    let config = local_config(
        "[print]\nenabled = true\nprinter_name = \"Test Printer\"\npaper_width = 15.0\npaper_height = 10.0",
    );
    assert!(config.print.enabled);
    assert_eq!(config.print.printer_name, "Test Printer");
    assert_eq!(cm(&config.print.paper_width), 15.0);
    assert_eq!(cm(&config.print.paper_height), 10.0);
}

#[test]
fn missing_print_section_uses_csharp_defaults() {
    let config = local_config("");
    assert!(!config.print.enabled);
    assert_eq!(config.print.printer_name, "ZDesigner ZT231-300dpi ZPL");
    assert_eq!(cm(&config.print.paper_width), 10.57);
    assert_eq!(cm(&config.print.paper_height), 29.70);
}
