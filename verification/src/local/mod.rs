//! The stand-alone label server: renders labels and prints them on its own machine.

pub mod agent_browser;
pub mod config;
pub mod designer;
pub mod label_info;
pub mod master;
pub mod print;
pub mod typst;
pub mod use_chrome_capture_screenshot;
