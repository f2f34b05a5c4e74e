//! A comparison-driven search for the largest or smallest element of a list
//! that only the client can see.
//!
//! The client holds the values; the server holds, for each search in flight,
//! a window `[left, right]` of list positions. Each round trip names the two
//! ends of the window, the client says which of them wins, and the window
//! shrinks by one position until a single position is left.
//!
//! - [`scan`]: one search, its window and the rule by which an answer moves
//!   one end of it.
//! - [`store`]: the searches in flight and the ids they run under.
//! - [`message`]: requests, the commands they decode to, and responses.
//! - [`protocol`]: what one request does to the store, as a function on
//!   mathematical values, and what holds of every single request.
//! - [`server`]: the request handler, proved to compute that function.
//! - [`trace`]: what holds of every sequence of requests.
//! - [`wire`]: the fields that a response is sent as.

pub mod message;
pub mod protocol;
pub mod scan;
pub mod server;
pub mod store;
pub mod trace;
pub mod wire;

pub use message::{
    compare_response, done_response, error_response, Command, Event, ProtocolError, Reply, Request,
    RequestView, Response,
};
pub use scan::{ComputeState, OpType, Scan};
pub use server::{execute, fold_answer, generate_response, rocket, start_scan};
pub use store::{ComputeMap, Store};
pub use wire::{WireField, WireValue, WireValueView};
