//! Request handling for a small directory server with a print endpoint.
//!
//! A print request carries a description and a message. The library decides
//! what is echoed to the console and, for descriptions that name a text, log or
//! JSON file, which file directly under the served directory receives the
//! message, and checks that a resolved path stays directly inside that
//! directory. The server itself (HTTP, console, file system) lives outside it.
pub mod path;
pub mod print;
pub mod text;

pub use print::{AppState, Persist, PrintPlan, PrintReq};
