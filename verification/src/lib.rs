//! Verified core of a zero-knowledge proof of neural-network inference.
//!
//! The library models field elements of the BLS12-381 scalar field by their
//! canonical representatives, computes a quantized two-layer feed-forward
//! pass (affine transform, fixed-point rescale, clipped activation, arg-max),
//! and binds model, input and output together with a two-stage sponge
//! commitment whose absorb order is part of the protocol.

pub mod commitment;
pub mod field;
pub mod network;
pub mod records;
pub mod sponge;
