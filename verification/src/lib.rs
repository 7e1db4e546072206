//! A light-client core for threshold-signed blockchain headers, together with
//! the arithmetic relation that lets a succinct proof attest to the outcome.
//!
//! `codec` pins the byte layout of the signed header message and its digest;
//! `light_client` decides whether a header carries more than two thirds of the
//! committee's voting power; `field` models the scalar field that the proof
//! relation is stated over; `circuit` is the relation itself; `endpoint` is
//! the small state machine a hosting contract drives.

pub mod codec;
pub mod light_client;
pub mod field;
pub mod circuit;
pub mod endpoint;
