//! The logic of a Matter controller and of a Matter light bridge.
//!
//! Everything here works on plain values. Sockets, files and terminals belong to the programs that
//! are built around this library.

pub mod app;
pub mod app_laws;
pub mod app_model;
pub mod bridge;
pub mod bridge_laws;
pub mod endpoint_laws;
pub mod endpoints;
pub mod flow_laws;
pub mod invoker;
pub mod invoker_laws;
pub mod light_on_off;
pub mod listing;
pub mod lists;
pub mod matter;
pub mod matter_laws;
pub mod mdns;
pub mod mdns_laws;
pub mod network;
pub mod network_laws;
pub mod number;
pub mod number_laws;
pub mod session_laws;
pub mod setup_code;
pub mod setup_code_laws;
pub mod state;
pub mod state_laws;
pub mod text;
pub mod text_laws;
pub mod trusted;
pub mod types;
pub mod ui;
pub mod ui_laws;
pub mod utils;
pub mod utils_laws;
