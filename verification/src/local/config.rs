//! The configuration of the stand-alone server.
use vstd::prelude::*;

use crate::service::config::{DEFAULT_PAPER_HEIGHT, DEFAULT_PAPER_WIDTH};
use crate::service::template_store::PaperLength;

verus! {

/// The configuration of the stand-alone server.
pub struct Config {
    pub print: PrintConfig,
}

/// What labels are printed on.
pub struct PrintConfig {
    /// Labels are printed once they are rendered.
    pub enabled: bool,
    pub printer_name: String,
    pub paper_width: PaperLength,
    pub paper_height: PaperLength,
}

impl Default for PrintConfig {
    fn default() -> (r: Self)
        ensures
            !r.enabled,
            r.printer_name@ == "ZDesigner ZT231-300dpi ZPL"@,
            r.paper_width.bits == DEFAULT_PAPER_WIDTH,
            r.paper_height.bits == DEFAULT_PAPER_HEIGHT,
    {
        PrintConfig {
            enabled: false,
            printer_name: "ZDesigner ZT231-300dpi ZPL".to_owned(),
            paper_width: PaperLength { bits: DEFAULT_PAPER_WIDTH },
            paper_height: PaperLength { bits: DEFAULT_PAPER_HEIGHT },
        }
    }
}

impl Default for Config {
    fn default() -> (r: Self)
        ensures
            !r.print.enabled,
            r.print.printer_name@ == "ZDesigner ZT231-300dpi ZPL"@,
            r.print.paper_width.bits == DEFAULT_PAPER_WIDTH,
            r.print.paper_height.bits == DEFAULT_PAPER_HEIGHT,
    {
        Config { print: PrintConfig::default() }
    }
}

} // verus!
