//! Session and notification core of a per-user task list service.
//!
//! The crate holds the decisions of the service: how tokens are issued,
//! checked and revoked, which store operations each request performs and in
//! which order, and how a live connection relays change events. All input and
//! output is left to the caller, which performs the store commands this crate
//! asks for and hands back the replies.
//!
//! * [`token`] issues and verifies signed tokens, [`revocation`] keeps the
//!   ledger of revoked ones, [`password`] hashes and checks passwords.
//! * [`task`] holds tasks, partial updates and change events; [`ident`] and
//!   [`keys`] say how tasks are identified and where everything is kept.
//! * [`store`] is the interface to the shared store, with a model of what the
//!   store does; [`bus`] is the per-user notification channel.
//! * [`session`] serves one request as a conversation with the store, and
//!   [`bridge`] serves one live connection.
//! * [`run`] says what a request amounts to on the model, and [`laws`] proves
//!   what holds of every request.
//! * [`memory`] is a store in memory that behaves as the model says, built on
//!   [`table`].

pub mod bridge;
pub mod bus;
pub mod clock;
pub mod error;
pub mod ident;
pub mod keys;
pub mod laws;
pub mod memory;
pub mod password;
pub mod revocation;
pub mod run;
pub mod session;
pub mod store;
pub mod table;
pub mod task;
pub mod token;
