//! A signing gateway: callers ask it for signatures instead of holding keys.
//!
//! The library decides who may sign with what, asks a backend for the signature, and words the
//! replies of the HTTP and gRPC endpoints. It holds the software backend whole; of the PKCS#11
//! cluster backend it holds everything but the sessions.

pub mod auth;
pub mod config;
pub mod encoding;
pub mod grpc;
pub mod hsm;
pub mod http;
pub mod net;
pub mod state;
pub mod string_map;
pub mod text;
