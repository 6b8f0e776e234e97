//! The gRPC side of the gateway.

pub mod proto;
pub mod service;
