//! Core of a client for a trading venue's REST and streaming APIs: request
//! signing, request construction, response classification, and the
//! classification and dispatch of inbound stream frames.

pub mod signer;
pub mod client;
pub mod frames;
pub mod websockets;
pub mod general;
