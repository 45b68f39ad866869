//! A small chat bot: it answers `ping` and `animal`, and may post, on a
//! fixed interval, a link to a random extinct animal in one named channel of
//! every server it has joined.
//!
//! The library holds the decisions; the runtime around it performs the
//! network calls and reports back through `broadcast::Event`.

pub mod broadcast;
pub mod channel;
pub mod command;
pub mod config;
