//! The HTTP side of the gateway.

pub mod handlers;
