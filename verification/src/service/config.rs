//! The configuration of the service.
use vstd::prelude::*;

use crate::service::template_store::PaperLength;

verus! {

/// The configuration of the service.
pub struct Config {
    pub server: ServerConfig,
    pub print: PrintConfig,
    pub template: TemplateConfig,
}

/// Where the service listens. Other machines must reach it, so it listens on every
/// address of its own.
pub struct ServerConfig {
    pub host: String,
    pub port: u16,
}

/// What print scripts are made with, and where pictures are sent to be printed.
pub struct PrintConfig {
    /// Labels that are asked for over HTTP are printed.
    pub enabled: bool,
    /// The print agent that prints them.
    pub agent_url: String,
    /// The file with the template of the print script.
    pub script_template: Option<String>,
    pub paper_width: PaperLength,
    pub paper_height: PaperLength,
}

/// How templates are kept.
pub struct TemplateConfig {
    /// The page of a template that is saved is written to a file as well.
    pub save_html: bool,
}

/// 10.57 cm.
pub const DEFAULT_PAPER_WIDTH: u64 = 0x402523d70a3d70a4;

/// 29.70 cm.
pub const DEFAULT_PAPER_HEIGHT: u64 = 0x403db33333333333;

impl Default for ServerConfig {
    fn default() -> (r: Self)
        ensures
            r.host@ == "0.0.0.0"@,
            r.port == 9095,
    {
        ServerConfig { host: "0.0.0.0".to_owned(), port: 9095 }
    }
}

impl Default for PrintConfig {
    fn default() -> (r: Self)
        ensures
            !r.enabled,
            r.agent_url@ == Seq::<char>::empty(),
            r.script_template is None,
            r.paper_width.bits == DEFAULT_PAPER_WIDTH,
            r.paper_height.bits == DEFAULT_PAPER_HEIGHT,
    {
        PrintConfig {
            enabled: false,
            agent_url: String::new(),
            script_template: None,
            paper_width: PaperLength { bits: DEFAULT_PAPER_WIDTH },
            paper_height: PaperLength { bits: DEFAULT_PAPER_HEIGHT },
        }
    }
}

impl Default for TemplateConfig {
    fn default() -> (r: Self)
        ensures
            r.save_html,
    {
        TemplateConfig { save_html: true }
    }
}

impl Default for Config {
    fn default() -> (r: Self)
        ensures
            r.server.host@ == "0.0.0.0"@,
            r.server.port == 9095,
            !r.print.enabled,
            r.print.agent_url@ == Seq::<char>::empty(),
            r.print.script_template is None,
            r.print.paper_width.bits == DEFAULT_PAPER_WIDTH,
            r.print.paper_height.bits == DEFAULT_PAPER_HEIGHT,
            r.template.save_html,
    {
        Config {
            server: ServerConfig::default(),
            print: PrintConfig::default(),
            template: TemplateConfig::default(),
        }
    }
}

} // verus!
