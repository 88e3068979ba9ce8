//! Diagnostic DNS resolution logic: target classification, nameserver
//! sessions, query dispatch and answer classification.

pub mod ip;
pub mod name;
pub mod target;
pub mod dispatch;
pub mod answer;
pub mod nameserver;
pub mod blocking;
pub mod runner;
pub mod wire;
mod order;
