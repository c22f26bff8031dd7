//! State-persistence and dispatch core of a minimal stateful program that
//! runs inside a deterministic virtual machine and talks to the world only
//! through a content-addressed block store.
//!
//! The library keeps a single root reference to the current state record,
//! encodes and decodes that record with a canonical binary codec, routes
//! numbered invocations to handlers, and turns every fault into a categorized
//! halting signal.

pub mod abort;
pub mod codec;
pub mod runtime;
pub mod state;
pub mod store;

pub use abort::AbortCode;
pub use codec::{decode, encode, greeting_payload};
pub use runtime::{Outcome, Runtime, HELLO_METHOD, INIT_METHOD};
pub use state::State;
pub use store::{Address, Store};
