//! The messages of the gRPC service.

use vstd::prelude::*;

verus! {

#[derive(Debug)]
pub struct SignRequest {
    pub caller_id: String,
    pub key_id: String,
    /// The algorithm's number; zero for the key's own.
    pub algorithm: i32,
    pub payload: Vec<u8>,
    pub prehashed: bool,
    /// The id under which the client knows the request; empty for none.
    pub request_id: String,
}

#[derive(Debug)]
pub struct SignResponse {
    pub signature_hex: String,
    pub key_id: String,
    pub algorithm: i32,
    pub signed_at: String,
    pub request_id: String,
}

#[derive(Debug)]
pub struct VerifyRequest {
    pub key_id: String,
    pub algorithm: i32,
    pub payload: Vec<u8>,
    pub signature: Vec<u8>,
    pub prehashed: bool,
}

#[derive(Debug)]
pub struct VerifyResponse {
    pub valid: bool,
    pub key_id: String,
    pub message: String,
}

#[derive(Debug)]
pub struct ListKeysRequest {
    pub caller_id: String,
}

#[derive(Debug)]
pub struct ListKeysResponse {
    pub keys: Vec<KeyInfo>,
}

#[derive(Debug)]
pub struct KeyInfo {
    pub key_id: String,
    pub description: String,
    pub default_algorithm: i32,
    /// One for an enabled key, two for a disabled one.
    pub status: i32,
    pub created_at: String,
    pub key_type: String,
}

/// What a `KeyInfo` says.
#[verifier::ext_equal]
pub struct KeyInfoView {
    pub key_id: Seq<char>,
    pub description: Seq<char>,
    pub default_algorithm: i32,
    pub status: i32,
    pub created_at: Seq<char>,
    pub key_type: Seq<char>,
}

impl View for KeyInfo {
    type V = KeyInfoView;

    open spec fn view(&self) -> KeyInfoView {
        KeyInfoView {
            key_id: self.key_id@,
            description: self.description@,
            default_algorithm: self.default_algorithm,
            status: self.status,
            created_at: self.created_at@,
            key_type: self.key_type@,
        }
    }
}

impl DeepView for KeyInfo {
    type V = KeyInfoView;

    open spec fn deep_view(&self) -> KeyInfoView {
        self@
    }
}

#[derive(Debug)]
pub struct GetPublicKeyRequest {
    pub key_id: String,
}

#[derive(Debug)]
pub struct GetPublicKeyResponse {
    pub key_id: String,
    pub public_key_pem: String,
    pub algorithm: i32,
    pub key_type: String,
}

#[derive(Debug)]
pub struct HealthRequest {}

#[derive(Debug)]
pub struct HealthResponse {
    /// One while the gateway serves.
    pub status: i32,
    pub hsm_backend: String,
    pub version: String,
    pub uptime_seconds: String,
    pub keys_loaded: u32,
}

/// Why a call failed.
#[derive(Debug, Clone, Copy, PartialEq, Eq, Structural)]
pub enum Code {
    InvalidArgument,
    NotFound,
    PermissionDenied,
    Internal,
    Unavailable,
    Unauthenticated,
}

/// The status of a failed call.
#[derive(Debug)]
pub struct Status {
    pub code: Code,
    pub message: String,
}

/// What a `Status` says.
#[verifier::ext_equal]
pub struct StatusView {
    pub code: Code,
    pub message: Seq<char>,
}

impl View for Status {
    type V = StatusView;

    open spec fn view(&self) -> StatusView {
        StatusView { code: self.code, message: self.message@ }
    }
}

} // verus!
