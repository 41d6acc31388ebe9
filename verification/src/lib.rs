//! Label rendering and printing: the rules shared by the label service, the
//! workstation print agent and the stand-alone label server.
use vstd::prelude::*;

pub mod agent;
pub mod assets;
pub mod browser;
pub mod codec;
pub mod context;
pub mod decimal;
pub mod design;
pub mod err;
pub mod hex;
pub mod json;
pub mod label_run;
pub mod local;
pub mod page;
pub mod powershell;
pub mod service;
pub mod text_map;
pub mod text;
pub mod utf16;

verus! {

} // verus!
