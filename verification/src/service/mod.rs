//! The label service: templates, rendering, and the print agents that connect to it.

pub mod agent_browser;
pub mod agent_installer;
pub mod agent_ws;
pub mod config;
pub mod designer;
pub mod print;
pub mod print_script;
pub mod template_store;
