//! The decision logic of a port scanner: what to scan, in what portions, what
//! to report, and what to tell the user while it happens.
//!
//! The crate holds plain state machines and pure functions. Everything that
//! touches the network, the terminal, the file system or other threads happens
//! around it: callers perform the actions and hand the outcomes back.

pub mod address;
pub mod cidr;
pub mod display;
pub mod limits;
mod lists;
pub mod notice;
pub mod open_ports;
pub mod opening;
pub mod options;
pub mod ports;
pub mod progress;
pub mod scripts;
pub mod session;
pub mod text;
