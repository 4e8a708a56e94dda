//! A name-directory service for a peer-to-peer network: it maps human-chosen
//! names to peer network addresses, so that participants can resolve a name to
//! a reachable identity.
//!
//! The crate is organised around four components:
//! - `models` / `store`: the name records and the record store, with its
//!   uniqueness, ownership and lifecycle invariants;
//! - `events` / `codec`: the two event vocabularies (peer-to-server requests
//!   and server-to-peer responses) and their binary wire form;
//! - `layer`: the directory protocol handler, the state machine that applies
//!   a peer event to the store and emits addressed responses — with its laws
//!   proved in `laws`;
//! - `rpc`: the read-only local control surface.

pub mod codec;
pub mod events;
pub mod laws;
pub mod layer;
pub mod models;
pub mod rpc;
pub mod store;
pub mod text;
