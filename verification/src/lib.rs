//! Core of a small concurrent TCP server: an admission gate that bounds how
//! many connection handlers run at once, a line-oriented request parser, and
//! the per-connection protocol state machine.
//!
//! The crate holds the decisions only. Sockets, threads and the caller's
//! route function belong to the program that drives these state machines.

pub mod acceptor;
pub mod connection;
pub mod headers;
pub mod request;
pub mod response;
pub mod text;
pub mod thread_limit;

pub use acceptor::{on_accept, AcceptOutcome};
pub use connection::{Action, Connection, Event, Mode, Phase};
pub use headers::Headers;
pub use request::{ParseError, Request};
pub use response::error_response;
pub use thread_limit::{Admission, TaskOutcome, ThreadLimit};
