//! A minimal hero-lookup RPC service core.
//!
//! The crate models the service side of a single protocol-buffer RPC,
//! `HeroesService.FindOne(HeroById) -> Hero`: the two message types, their
//! binary wire encoding, the handler for the one method, and the dispatch
//! from a request path and request body to a response body.  Listening on a
//! network address and driving connections is left to the surrounding
//! program; everything that computes is here, with its contract.

pub mod hero;
pub mod service;
pub mod wire;
