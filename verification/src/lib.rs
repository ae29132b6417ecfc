//! Core of a provably-fair card-game session service.
//!
//! The library holds the verified logic of the service: parameter validation
//! and the deterministic deal, the session registry with its forward-only
//! status machine, the oracle fulfillment protocol, the bounded upload retry,
//! and the commitments computed over a dealt deck.  All network, disk and
//! clock work stays outside; the library consumes and produces plain values.

pub mod api;
pub mod cards;
pub mod commitments;
pub mod orchestrator;
pub mod proof_management;
pub mod registry;
pub mod state;
pub mod rules;
pub mod storage;
pub mod vrf;
