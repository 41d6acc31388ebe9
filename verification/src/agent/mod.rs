//! The print agent of a workstation: it forwards labels to the service over one
//! connection and prints what comes back.

pub mod config;
pub mod install;
pub mod print;
pub mod server;
pub mod user_session;
pub mod ws_client;
