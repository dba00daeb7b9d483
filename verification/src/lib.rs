//! A relay that lets many terminal clients share one session: every client
//! sends records to a server, the server computes one response per record and
//! hands that response to every connection registered at that moment.
//!
//! The crate holds the rules of that relay, each with a contract:
//!
//! - `wire`: how a record becomes a line on the wire and back;
//! - `domain`: who receives which response, as mathematics, with the laws
//!   of order, of no replay and of pruning;
//! - `registry` and `engine`: the server's outbound channels and the one
//!   consumer that answers and broadcasts;
//! - `lifecycle`: the life of one connection on the server;
//! - `client`: the client's event loop and the steps it hands out;
//! - `messages`, `shell` and `console`: the records of the shared shell, how
//!   the server answers them and what the client's console does with keys
//!   and responses.
//!
//! Sockets, threads, processes and the terminal are the host's.

pub mod client;
pub mod console;
pub mod domain;
pub mod engine;
pub mod lifecycle;
pub mod messages;
pub mod registry;
pub mod shell;
pub mod wire;
