//! The authorization and visibility engine of a room's state.
//!
//! A room's state is an append-only sequence of events that many parties
//! write. This library answers two questions about it: whether a proposed
//! state event may be written, and whether a subject may see a piece of state
//! or history, or redact an event.
//!
//! The library makes no lookup and no write of its own. Each decision takes
//! the facts known so far and settles, or names the lookup it needs next (see
//! [`facts`]); the caller runs the loop. What is decided is stated as a
//! mathematical function of those facts, and the executable code is proved to
//! compute it.
//!
//! * [`gate`] and [`policy`]: the serialized sending of state events and the
//!   rules they must pass.
//! * [`visibility`] and [`cache`]: who may see an event or the current state,
//!   and the bounded memo of those decisions.
//! * [`redaction`] and [`power`]: who may redact an event.
//! * [`state`] and [`routes`]: the current state of the rooms and what a
//!   request on it returns.
//! * [`crypto`], [`encryption`] and [`tls`]: the server's post-quantum keys,
//!   the encryption settings of new rooms and the TLS setup of the listener.
//! * [`content`], [`error`], [`table`] and [`text`]: content decoding, the
//!   errors, and small tools.

pub mod cache;
pub mod content;
pub mod crypto;
pub mod encryption;
pub mod error;
pub mod facts;
pub mod gate;
pub mod policy;
pub mod power;
pub mod redaction;
pub mod routes;
pub mod state;
pub mod table;
pub mod text;
pub mod tls;
pub mod visibility;
