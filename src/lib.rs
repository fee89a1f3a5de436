//! Escrow-backed delivery tracking: a delivery moves from creation to
//! release of its escrow through single-use confirmation codes, and the
//! escrow ledger always equals the value that deliveries still hold.

pub mod laws;
pub mod lifecycle;
pub mod model;
pub mod outside;
pub mod repository;
pub mod text;
