//! The client side of the Agent Client Protocol: JSON-RPC over the standard
//! streams of an agent process.
//!
//! The agent is any executable that speaks the protocol; [`harness`] makes one
//! of a command and [`runner`] follows its run. [`session`] takes the agent's
//! lines one by one and says what to send and what to do: `initialize`,
//! `session/new` and `session/prompt` go out in turn, and what the agent asks
//! in between is decided by [`client`] and replied to by [`tasks`]. Files are
//! kept under the working directory by [`path`].
//!
//! Nothing here reads, writes or spawns anything: whoever runs a session does
//! that, and hands the outcome back.
//!
//! The modules whose names end in `_laws` state what holds of all this, read off what goes in
//! and what comes out; there `call_ensures(f, args, r)` says that `r` is what `f` gives for `args`.
pub mod client;
pub mod client_laws;
pub mod codec;
pub mod connection;
pub mod connection_laws;
pub mod error;
pub mod harness;
pub mod harness_laws;
pub mod json;
pub mod json_laws;
pub mod path;
pub mod path_laws;
pub mod request_laws;
pub mod rpc;
pub mod rpc_laws;
pub mod runner;
pub mod session;
pub mod session_laws;
pub mod task_laws;
pub mod tasks;
pub mod terminals;
pub mod text;
