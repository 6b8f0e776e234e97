//! What the gRPC calls answer.

use super::proto::{
    Code, GetPublicKeyRequest, GetPublicKeyResponse, HealthRequest, HealthResponse, KeyInfo,
    KeyInfoView, ListKeysRequest, ListKeysResponse, SignRequest, SignResponse, Status, StatusView,
    VerifyRequest, VerifyResponse,
};
use crate::auth;
use crate::auth::{check_ip_allowed, check_key_allowed, extract_bearer};
use crate::config;
use crate::config::{Algorithm, AuthView};
use crate::encoding;
use crate::encoding::hex_encode;
use crate::hsm;
use crate::hsm::software;
use crate::hsm::software::SoftwareHsm;
use crate::hsm::{
    algorithm_of, HsmBackend, HsmError, HsmErrorView, HsmResult, PublicKey, PublicKeyView, Signature,
};
use crate::http::handlers;
use crate::http::handlers::{count_keys, ip_refusal_text, key_refusal_text};
use crate::net::IpAddr;
use crate::state;
use crate::state::{new_id, now, seconds_since, time_stamp, version, AppState};
use crate::string_map;
use crate::text;
use crate::text::{decimal_text, join2};
use std::sync::Arc;
use vstd::prelude::*;
use vstd::string::*;

verus! {

// ---- Algorithms ----

/// The algorithm with that number.
pub open spec fn algorithm_numbered(v: i32) -> Option<Algorithm> {
    match v {
        1 => Some(Algorithm::Rs256),
        2 => Some(Algorithm::Rs384),
        3 => Some(Algorithm::Rs512),
        4 => Some(Algorithm::Ps256),
        5 => Some(Algorithm::Ps384),
        6 => Some(Algorithm::Ps512),
        7 => Some(Algorithm::Es256),
        8 => Some(Algorithm::Es384),
        9 => Some(Algorithm::Hs256),
        10 => Some(Algorithm::Hs384),
        11 => Some(Algorithm::Hs512),
        _ => None,
    }
}

/// The number of an algorithm.
pub open spec fn algorithm_number(a: Algorithm) -> i32 {
    match a {
        Algorithm::Rs256 => 1,
        Algorithm::Rs384 => 2,
        Algorithm::Rs512 => 3,
        Algorithm::Ps256 => 4,
        Algorithm::Ps384 => 5,
        Algorithm::Ps512 => 6,
        Algorithm::Es256 => 7,
        Algorithm::Es384 => 8,
        Algorithm::Hs256 => 9,
        Algorithm::Hs384 => 10,
        Algorithm::Hs512 => 11,
    }
}

/// The algorithm with that number.
pub fn proto_to_algorithm(v: i32) -> (r: Option<Algorithm>)
    ensures
        r == algorithm_numbered(v),
{
    match v {
        1 => Some(Algorithm::Rs256),
        2 => Some(Algorithm::Rs384),
        3 => Some(Algorithm::Rs512),
        4 => Some(Algorithm::Ps256),
        5 => Some(Algorithm::Ps384),
        6 => Some(Algorithm::Ps512),
        7 => Some(Algorithm::Es256),
        8 => Some(Algorithm::Es384),
        9 => Some(Algorithm::Hs256),
        10 => Some(Algorithm::Hs384),
        11 => Some(Algorithm::Hs512),
        _ => None,
    }
}

/// The number of an algorithm.
pub fn algorithm_to_proto(a: Algorithm) -> (r: i32)
    ensures
        r == algorithm_number(a),
{
    match a {
        Algorithm::Rs256 => 1,
        Algorithm::Rs384 => 2,
        Algorithm::Rs512 => 3,
        Algorithm::Ps256 => 4,
        Algorithm::Ps384 => 5,
        Algorithm::Ps512 => 6,
        Algorithm::Es256 => 7,
        Algorithm::Es384 => 8,
        Algorithm::Hs256 => 9,
        Algorithm::Hs384 => 10,
        Algorithm::Hs512 => 11,
    }
}

/// The number of an algorithm leads back to it; a number that leads to an algorithm is that
/// algorithm's; and zero, which stands for the key's own algorithm, leads to none.
pub proof fn algorithm_numbers_round_trip(a: Algorithm, v: i32)
    ensures
        algorithm_numbered(algorithm_number(a)) == Some(a),
        algorithm_numbered(v) matches Some(b) ==> algorithm_number(b) == v,
        algorithm_numbered(v) is Some <==> 1 <= v <= 11,
        algorithm_number(a) != 0,
{
}

// ---- Errors ----

/// The code of a backend error.
pub open spec fn error_code(e: HsmErrorView) -> Code {
    match e {
        HsmErrorView::KeyNotFound(_) => Code::NotFound,
        HsmErrorView::KeyDisabled(_) => Code::PermissionDenied,
        HsmErrorView::AlgorithmNotSupported { .. } => Code::InvalidArgument,
        HsmErrorView::SigningFailed(_) => Code::Internal,
        HsmErrorView::VerificationFailed(_) => Code::InvalidArgument,
        _ => Code::Unavailable,
    }
}

/// The status that tells of a backend error.
pub open spec fn backend_status(e: HsmErrorView) -> StatusView {
    StatusView { code: error_code(e), message: hsm::error_message(e) }
}

/// The status that tells of the error.
pub fn hsm_err_to_status(e: HsmError) -> (r: Status)
    ensures
        r@ == backend_status(e@),
{
    let message = e.to_string();
    let code = match e {
        HsmError::KeyNotFound(_) => Code::NotFound,
        HsmError::KeyDisabled(_) => Code::PermissionDenied,
        HsmError::AlgorithmNotSupported { .. } => Code::InvalidArgument,
        HsmError::SigningFailed(_) => Code::Internal,
        HsmError::VerificationFailed(_) => Code::InvalidArgument,
        _ => Code::Unavailable,
    };
    Status { code, message }
}

/// There is no algorithm with that number.
pub open spec fn unknown_algorithm() -> StatusView {
    StatusView { code: Code::InvalidArgument, message: "Unknown algorithm"@ }
}

// ---- Refusals ----

/// Why a request to sign is turned away before anything else is done, if it is. The token comes
/// first, then the address, then the key; the caller is the one that the token belongs to.
pub open spec fn refusal(
    auth: AuthView,
    token: Option<Seq<char>>,
    ip: IpAddr,
    key: Seq<char>,
) -> Option<StatusView> {
    if auth.allow_all {
        None
    } else {
        match auth::token_owner(auth, token) {
            None => Some(
                StatusView {
                    code: Code::Unauthenticated,
                    message: "Invalid or missing Bearer token"@,
                },
            ),
            Some(caller) => if !auth::ip_ok(auth, caller, ip) {
                Some(
                    StatusView {
                        code: Code::PermissionDenied,
                        message: handlers::ip_refusal(ip, caller),
                    },
                )
            } else if !auth::key_ok(auth, caller, key) {
                Some(
                    StatusView {
                        code: Code::PermissionDenied,
                        message: handlers::key_refusal(key, caller),
                    },
                )
            } else {
                None
            },
        }
    }
}

/// What an optional status says.
pub open spec fn option_status(r: Option<Status>) -> Option<StatusView> {
    match r {
        Some(r) => Some(r@),
        None => None,
    }
}

/// Why a request to sign is turned away before anything else is done, if it is.
pub fn check_request<B: HsmBackend>(
    state: &AppState<B>,
    token: Option<&str>,
    ip: IpAddr,
    key: &str,
) -> (r: Option<Status>)
    ensures
        option_status(r) == refusal(state.config.auth@, text::option_view(token), ip, key@),
{
    let auth = &state.config.auth;
    if auth.allow_all {
        return None;
    }
    let owner = match token {
        Some(token) => auth.tokens.get(token),
        None => None,
    };
    let caller = match owner {
        Some(caller) => caller.as_str(),
        None => return Some(
            Status {
                code: Code::Unauthenticated,
                message: "Invalid or missing Bearer token".to_owned(),
            },
        ),
    };
    if !check_ip_allowed(state, caller, ip) {
        return Some(
            Status { code: Code::PermissionDenied, message: ip_refusal_text(ip, caller) },
        );
    }
    if !check_key_allowed(state, caller, key) {
        return Some(
            Status { code: Code::PermissionDenied, message: key_refusal_text(key, caller) },
        );
    }
    None
}

/// HTTP and gRPC turn away the same requests, for the same reasons: where the caller of an HTTP
/// request is the one that the token belongs to, a gRPC request for the same key, from the same
/// address and with the same token, is denied exactly when the HTTP request is forbidden, and in
/// the same words.
pub proof fn http_and_grpc_agree(
    auth: AuthView,
    caller: Seq<char>,
    token: Option<Seq<char>>,
    ip: IpAddr,
    key: Seq<char>,
)
    requires
        key.len() > 0,
    ensures
        auth::caller_ok(auth, caller, token) ==> match (
            handlers::refusal(auth, caller, token, ip, key),
            refusal(auth, token, ip, key),
        ) {
            (None, None) => true,
            (Some(http), Some(grpc)) => http.status == 403 && grpc.code == Code::PermissionDenied
                && http.error == grpc.message,
            _ => false,
        },
        refusal(auth, token, ip, key) matches Some(grpc) && grpc.code == Code::Unauthenticated
            ==> handlers::refusal(auth, caller, token, ip, key) == Some(handlers::unauthorized()),
{
}

// ---- The service ----

/// The gRPC service.
pub struct SigningGatewayService<B> {
    pub state: Arc<AppState<B>>,
    pub start_time: std::time::Instant,
}

impl<B> Clone for SigningGatewayService<B> {
    fn clone(&self) -> (r: Self)
        ensures
            r.state == self.state,
            r.start_time == self.start_time,
    {
        SigningGatewayService { state: self.state.clone(), start_time: self.start_time }
    }
}

/// The algorithm of the key, given the backend's list of keys.
pub open spec fn listed_or_missing(
    listed: Result<Seq<hsm::KeyInfoView>, HsmErrorView>,
    key: Seq<char>,
) -> Result<Algorithm, StatusView> {
    match listed {
        Err(e) => Err(backend_status(e)),
        Ok(keys) => match hsm::listed_algorithm(keys, key) {
            Some(a) => Ok(a),
            None => Err(StatusView { code: Code::NotFound, message: "Key not found: "@ + key }),
        },
    }
}

/// What an answer says whose value is taken as it is.
pub open spec fn status_answer<T>(r: Result<T, Status>) -> Result<T, StatusView> {
    match r {
        Ok(v) => Ok(v),
        Err(s) => Err(s@),
    }
}

/// The key's own algorithm, given the backend's list of keys.
pub fn own_algorithm(listed: HsmResult<Vec<hsm::KeyInfo>>, key: &str) -> (r: Result<
    Algorithm,
    Status,
>)
    ensures
        status_answer(r) == listed_or_missing(hsm::answer_view(listed), key@),
{
    match listed {
        Ok(keys) => match algorithm_of(&keys, key) {
            Some(a) => Ok(a),
            None => Err(Status { code: Code::NotFound, message: join2("Key not found: ", key) }),
        },
        Err(e) => Err(hsm_err_to_status(e)),
    }
}

/// The reply tells what the backend answered when it was asked for a signature. The time of the
/// signature, and the id of a request that came without one, are not fixed.
pub open spec fn tells_signature(
    req: SignRequest,
    algorithm: Algorithm,
    answer: Result<Seq<u8>, HsmErrorView>,
    reply: Result<SignResponse, Status>,
) -> bool {
    match answer {
        Err(e) => reply matches Err(s) && s@ == backend_status(e),
        Ok(sig) => {
            &&& reply matches Ok(response)
            &&& response.signature_hex@ == encoding::hex_text(sig)
            &&& response.key_id@ == req.key_id@
            &&& response.algorithm == algorithm_number(algorithm)
            &&& if req.request_id@.len() > 0 {
                response.request_id@ == req.request_id@
            } else {
                state::is_uuid_v4(response.request_id@)
            }
        },
    }
}

/// The reply to a request to sign, given what the backend answered, the time and the request's id.
pub fn sign_reply(
    key_id: String,
    algorithm: Algorithm,
    answer: HsmResult<Signature>,
    signed_at: String,
    request_id: String,
) -> (r: Result<SignResponse, Status>)
    ensures
        match answer {
            Ok(sig) => {
                &&& r matches Ok(response)
                &&& response.signature_hex@ == encoding::hex_text(sig@)
                &&& response.key_id@ == key_id@
                &&& response.algorithm == algorithm_number(algorithm)
                &&& response.signed_at@ == signed_at@
                &&& response.request_id@ == request_id@
            },
            Err(e) => r matches Err(s) && s@ == backend_status(e@),
        },
{
    match answer {
        Ok(sig) => Ok(
            SignResponse {
                signature_hex: hex_encode(sig.0.as_slice()),
                key_id,
                algorithm: algorithm_to_proto(algorithm),
                signed_at,
                request_id,
            },
        ),
        Err(e) => Err(hsm_err_to_status(e)),
    }
}

/// The backend is asked to sign, and the reply tells what it answered.
pub open spec fn signs_with<B: HsmBackend>(
    state: &AppState<B>,
    req: SignRequest,
    algorithm: Algorithm,
    reply: Result<SignResponse, Status>,
) -> bool {
    exists|answer: Result<Seq<u8>, HsmErrorView>| #[trigger]
        state.hsm.may_sign(req.key_id@, algorithm, req.payload@, req.prehashed, answer)
            && tells_signature(req, algorithm, answer, reply)
}

/// The reply to a request to sign that was let in and names no algorithm, given the list of keys.
pub open spec fn signs_own<B: HsmBackend>(
    state: &AppState<B>,
    req: SignRequest,
    listed: Result<Seq<hsm::KeyInfoView>, HsmErrorView>,
    reply: Result<SignResponse, Status>,
) -> bool {
    match listed_or_missing(listed, req.key_id@) {
        Err(s) => reply matches Err(status) && status@ == s,
        Ok(algorithm) => signs_with(state, req, algorithm, reply),
    }
}

/// The reply to a request to sign that was let in and names no algorithm.
pub open spec fn signs_listed<B: HsmBackend>(
    state: &AppState<B>,
    req: SignRequest,
    reply: Result<SignResponse, Status>,
) -> bool {
    exists|listed: Result<Seq<hsm::KeyInfoView>, HsmErrorView>| #[trigger]
        state.hsm.may_list(listed) && signs_own(state, req, listed, reply)
}

/// The reply to a request to sign.
pub open spec fn signs<B: HsmBackend>(
    state: &AppState<B>,
    peer: IpAddr,
    authorization: Option<Seq<char>>,
    forwarded_for: Option<Seq<char>>,
    req: SignRequest,
    reply: Result<SignResponse, Status>,
) -> bool {
    match refusal(
        state.config.auth@,
        auth::bearer(authorization),
        state.client_ip(peer, forwarded_for),
        req.key_id@,
    ) {
        Some(s) => reply matches Err(status) && status@ == s,
        None => if req.algorithm == 0 {
            signs_listed(state, req, reply)
        } else {
            match algorithm_numbered(req.algorithm) {
                Some(algorithm) => signs_with(state, req, algorithm, reply),
                None => reply matches Err(status) && status@ == unknown_algorithm(),
            }
        },
    }
}

/// The reply tells whether the signature is valid.
pub open spec fn tells_validity(
    key: Seq<char>,
    answer: Result<bool, HsmErrorView>,
    reply: Result<VerifyResponse, Status>,
) -> bool {
    match answer {
        Err(e) => reply matches Err(s) && s@ == backend_status(e),
        Ok(valid) => {
            &&& reply matches Ok(response)
            &&& response.valid == valid
            &&& response.key_id@ == key
            &&& response.message@ == (if valid {
                "valid"@
            } else {
                "invalid"@
            })
        },
    }
}

/// The reply to a request to verify, given what the backend answered.
pub fn verify_reply(key_id: String, answer: HsmResult<bool>) -> (r: Result<VerifyResponse, Status>)
    ensures
        tells_validity(key_id@, hsm::answer_view(answer), r),
{
    match answer {
        Ok(valid) => {
            let message = if valid {
                "valid"
            } else {
                "invalid"
            };
            Ok(VerifyResponse { valid, key_id, message: message.to_owned() })
        },
        Err(e) => Err(hsm_err_to_status(e)),
    }
}

/// The backend is asked to verify, and the reply tells what it answered.
pub open spec fn verifies_with<B: HsmBackend>(
    state: &AppState<B>,
    req: VerifyRequest,
    algorithm: Algorithm,
    reply: Result<VerifyResponse, Status>,
) -> bool {
    exists|answer: Result<bool, HsmErrorView>| #[trigger]
        state.hsm.may_verify(
            req.key_id@,
            algorithm,
            req.payload@,
            req.signature@,
            req.prehashed,
            answer,
        ) && tells_validity(req.key_id@, answer, reply)
}

/// The reply to a request to verify.
pub open spec fn verifies<B: HsmBackend>(
    state: &AppState<B>,
    req: VerifyRequest,
    reply: Result<VerifyResponse, Status>,
) -> bool {
    match algorithm_numbered(req.algorithm) {
        Some(algorithm) => verifies_with(state, req, algorithm, reply),
        None => reply matches Err(status) && status@ == unknown_algorithm(),
    }
}

/// A listed key, as gRPC tells it. The time of its creation is not known.
pub open spec fn listed_key(key: hsm::KeyInfoView) -> KeyInfoView {
    KeyInfoView {
        key_id: key.id,
        description: key.description,
        default_algorithm: algorithm_number(key.algorithm),
        status: if key.enabled {
            1
        } else {
            2
        },
        created_at: Seq::empty(),
        key_type: key.key_type,
    }
}

/// The listed keys, as gRPC tells them.
pub open spec fn listed_keys(keys: Seq<hsm::KeyInfoView>) -> Seq<KeyInfoView> {
    keys.map_values(|key: hsm::KeyInfoView| listed_key(key))
}

/// The reply tells the keys that the backend listed.
pub open spec fn tells_keys(
    answer: Result<Seq<hsm::KeyInfoView>, HsmErrorView>,
    reply: Result<ListKeysResponse, Status>,
) -> bool {
    match answer {
        Ok(keys) => reply matches Ok(response) && response.keys.deep_view() == listed_keys(keys),
        Err(e) => reply matches Err(s) && s@ == backend_status(e),
    }
}

/// The reply to a request for the keys, given what the backend answered.
pub fn list_reply(answer: HsmResult<Vec<hsm::KeyInfo>>) -> (r: Result<ListKeysResponse, Status>)
    ensures
        tells_keys(hsm::answer_view(answer), r),
{
    let keys = match answer {
        Ok(keys) => keys,
        Err(e) => return Err(hsm_err_to_status(e)),
    };
    let ghost all = keys.deep_view();
    let mut list: Vec<KeyInfo> = Vec::new();
    let mut i: usize = 0;
    proof {
        assert(list.deep_view() =~= listed_keys(all).take(0));
    }
    while i < keys.len()
        invariant
            i <= keys.len(),
            all == keys.deep_view(),
            list.deep_view() == listed_keys(all).take(i as int),
        decreases keys.len() - i,
    {
        let key = &keys[i];
        let status: i32 = if key.enabled {
            1
        } else {
            2
        };
        let info = KeyInfo {
            key_id: key.id.clone(),
            description: key.description.clone(),
            default_algorithm: algorithm_to_proto(key.algorithm),
            status,
            created_at: String::new(),
            key_type: key.key_type.clone(),
        };
        let ghost before = list.deep_view();
        list.push(info);
        proof {
            assert(info@ =~= listed_key(all[i as int]));
            assert(list.deep_view() =~= before.push(info@));
            assert(listed_keys(all).take(i + 1) =~= before.push(listed_keys(all)[i as int]));
        }
        i = i + 1;
    }
    proof {
        assert(listed_keys(all).take(i as int) =~= listed_keys(all));
    }
    Ok(ListKeysResponse { keys: list })
}

/// The reply tells the public key.
pub open spec fn tells_public_key(
    answer: Result<PublicKeyView, HsmErrorView>,
    reply: Result<GetPublicKeyResponse, Status>,
) -> bool {
    match answer {
        Ok(key) => {
            &&& reply matches Ok(response)
            &&& response.key_id@ == key.key_id
            &&& response.public_key_pem@ == key.pem
            &&& response.algorithm == algorithm_number(key.algorithm)
            &&& response.key_type@ == key.key_type
        },
        Err(e) => reply matches Err(s) && s@ == backend_status(e),
    }
}

/// The reply to a request for a public key, given what the backend answered.
pub fn public_key_reply(answer: HsmResult<PublicKey>) -> (r: Result<GetPublicKeyResponse, Status>)
    ensures
        tells_public_key(hsm::answer_view(answer), r),
{
    match answer {
        Ok(key) => Ok(
            GetPublicKeyResponse {
                key_id: key.key_id,
                public_key_pem: key.pem,
                algorithm: algorithm_to_proto(key.algorithm),
                key_type: key.key_type,
            },
        ),
        Err(e) => Err(hsm_err_to_status(e)),
    }
}

/// Whoever gets a signature has a token that belongs to a caller, who may connect from the address
/// and use the key; unless everybody is allowed. The signature is one that the backend gave for the
/// key and the payload.
pub proof fn signatures_are_permitted<B: HsmBackend>(
    state: &AppState<B>,
    peer: IpAddr,
    authorization: Option<Seq<char>>,
    forwarded_for: Option<Seq<char>>,
    req: SignRequest,
    reply: Result<SignResponse, Status>,
)
    requires
        signs(state, peer, authorization, forwarded_for, req, reply),
    ensures
        reply matches Ok(response) ==> {
            &&& response.key_id@ == req.key_id@
            &&& state.config.auth@.allow_all || {
                &&& auth::token_owner(state.config.auth@, auth::bearer(authorization)) matches Some(
                    caller,
                )
                &&& auth::ip_ok(state.config.auth@, caller, state.client_ip(peer, forwarded_for))
                &&& auth::key_ok(state.config.auth@, caller, req.key_id@)
            }
            &&& exists|algorithm: Algorithm, sig: Seq<u8>|
                response.signature_hex@ == encoding::hex_text(sig) && response.algorithm
                    == algorithm_number(algorithm) && #[trigger] state.hsm.may_sign(
                    req.key_id@,
                    algorithm,
                    req.payload@,
                    req.prehashed,
                    Ok(sig),
                )
        },
{
    if let Ok(response) = reply {
        let algorithm = if req.algorithm == 0 {
            assert(signs_listed(state, req, reply));
            let listed = choose|listed: Result<Seq<hsm::KeyInfoView>, HsmErrorView>| #[trigger]
                state.hsm.may_list(listed) && signs_own(state, req, listed, reply);
            listed_or_missing(listed, req.key_id@)->Ok_0
        } else {
            algorithm_numbered(req.algorithm)->0
        };
        assert(signs_with(state, req, algorithm, reply));
        let answer = choose|answer: Result<Seq<u8>, HsmErrorView>| #[trigger]
            state.hsm.may_sign(req.key_id@, algorithm, req.payload@, req.prehashed, answer)
                && tells_signature(req, algorithm, answer, reply);
        assert(answer is Ok);
    }
}

/// What Sign signs with a key of the software backend, Verify confirms: a request to verify with the
/// key, the algorithm and the payload, and with the bytes that the response holds in hex, is answered
/// with `valid`.
pub proof fn signed_payloads_verify(
    state: &AppState<SoftwareHsm>,
    peer: IpAddr,
    authorization: Option<Seq<char>>,
    forwarded_for: Option<Seq<char>>,
    req: SignRequest,
    response: SignResponse,
    question: VerifyRequest,
    reply: Result<VerifyResponse, Status>,
)
    requires
        signs(state, peer, authorization, forwarded_for, req, Ok(response)),
        verifies(state, question, reply),
        question.key_id@ == response.key_id@,
        question.algorithm == response.algorithm,
        question.payload@ == req.payload@,
        encoding::hex_text(question.signature@) == response.signature_hex@,
        question.prehashed == req.prehashed,
        string_map::lookup(state.hsm@, req.key_id@) matches Some(key) ==> software::can_verify(
            key.material,
            algorithm_numbered(response.algorithm)->0,
        ),
    ensures
        reply matches Ok(verified) && verified.valid,
{
    signatures_are_permitted(state, peer, authorization, forwarded_for, req, Ok(response));
    let (algorithm, sig) = choose|algorithm: Algorithm, sig: Seq<u8>|
        response.signature_hex@ == encoding::hex_text(sig) && response.algorithm
            == algorithm_number(algorithm) && #[trigger] state.hsm.may_sign(
            req.key_id@,
            algorithm,
            req.payload@,
            req.prehashed,
            Ok(sig),
        );
    encoding::hex_round_trip(sig);
    encoding::hex_round_trip(question.signature@);
    algorithm_numbers_round_trip(algorithm, response.algorithm);
    assert(verifies_with(state, question, algorithm, reply));
    let answer = choose|answer: Result<bool, HsmErrorView>| #[trigger]
        state.hsm.may_verify(
            question.key_id@,
            algorithm,
            question.payload@,
            question.signature@,
            question.prehashed,
            answer,
        ) && tells_validity(question.key_id@, answer, reply);
    assert(state.hsm.may_sign(
        req.key_id@,
        algorithm,
        req.payload@,
        question.prehashed,
        Ok::<Seq<u8>, HsmErrorView>(sig),
    ));
    software::signatures_verify(
        state.hsm,
        req.key_id@,
        algorithm,
        req.payload@,
        question.prehashed,
        sig,
        answer,
    );
}

impl<B: HsmBackend> SigningGatewayService<B> {
    /// A service that starts now.
    pub fn new(state: Arc<AppState<B>>) -> (r: Self)
        ensures
            r.state == state,
    {
        SigningGatewayService { state, start_time: now() }
    }

    /// Signs a payload.
    pub fn sign(
        &self,
        peer: IpAddr,
        authorization: Option<&str>,
        forwarded_for: Option<&str>,
        req: SignRequest,
    ) -> (r: Result<SignResponse, Status>)
        ensures
            signs(
                &*self.state,
                peer,
                text::option_view(authorization),
                text::option_view(forwarded_for),
                req,
                r,
            ),
    {
        let state: &AppState<B> = &self.state;
        let token = extract_bearer(authorization);
        let ip = state.resolve_client_ip(peer, forwarded_for);
        if let Some(status) = check_request(state, token, ip, req.key_id.as_str()) {
            return Err(status);
        }
        let ghost mut list: Result<Seq<hsm::KeyInfoView>, HsmErrorView> = Err(
            HsmErrorView::PoolExhausted,
        );
        let algorithm = if req.algorithm == 0 {
            let listed = state.hsm.list_keys();
            proof {
                list = hsm::answer_view(listed);
            }
            match own_algorithm(listed, req.key_id.as_str()) {
                Ok(a) => a,
                Err(status) => {
                    let r: Result<SignResponse, Status> = Err(status);
                    proof {
                        assert(signs_own(state, req, list, r));
                    }
                    return r;
                },
            }
        } else {
            match proto_to_algorithm(req.algorithm) {
                Some(a) => a,
                None => return Err(
                    Status {
                        code: Code::InvalidArgument,
                        message: "Unknown algorithm".to_owned(),
                    },
                ),
            }
        };
        let request_id = if req.request_id.as_str().is_empty() {
            new_id()
        } else {
            req.request_id.clone()
        };
        let answer = state.hsm.sign(
            req.key_id.as_str(),
            algorithm,
            req.payload.as_slice(),
            req.prehashed,
        );
        let ghost told = hsm::answer_view(answer);
        let r = sign_reply(req.key_id.clone(), algorithm, answer, time_stamp(), request_id);
        proof {
            assert(tells_signature(req, algorithm, told, r));
            assert(signs_with(state, req, algorithm, r));
            if req.algorithm == 0 {
                assert(signs_own(state, req, list, r));
            }
        }
        r
    }

    /// Verifies a signature.
    pub fn verify(&self, req: VerifyRequest) -> (r: Result<VerifyResponse, Status>)
        ensures
            verifies(&*self.state, req, r),
    {
        let state: &AppState<B> = &self.state;
        let algorithm = match proto_to_algorithm(req.algorithm) {
            Some(a) => a,
            None => return Err(
                Status { code: Code::InvalidArgument, message: "Unknown algorithm".to_owned() },
            ),
        };
        let answer = state.hsm.verify(
            req.key_id.as_str(),
            algorithm,
            req.payload.as_slice(),
            req.signature.as_slice(),
            req.prehashed,
        );
        let ghost told = hsm::answer_view(answer);
        let r = verify_reply(req.key_id.clone(), answer);
        proof {
            assert(tells_validity(req.key_id@, told, r));
            assert(verifies_with(state, req, algorithm, r));
        }
        r
    }

    /// Lists the keys.
    pub fn list_keys(&self, _req: ListKeysRequest) -> (r: Result<ListKeysResponse, Status>)
        ensures
            exists|answer: Result<Seq<hsm::KeyInfoView>, HsmErrorView>| #[trigger]
                self.state.hsm.may_list(answer) && tells_keys(answer, r),
    {
        let answer = self.state.hsm.list_keys();
        let ghost told = hsm::answer_view(answer);
        let r = list_reply(answer);
        proof {
            assert(self.state.hsm.may_list(told) && tells_keys(told, r));
        }
        r
    }

    /// Gives a public key.
    pub fn get_public_key(&self, req: GetPublicKeyRequest) -> (r: Result<
        GetPublicKeyResponse,
        Status,
    >)
        ensures
            exists|answer: Result<PublicKeyView, HsmErrorView>| #[trigger]
                self.state.hsm.may_export(req.key_id@, answer) && tells_public_key(answer, r),
    {
        let answer = self.state.hsm.public_key(req.key_id.as_str());
        let ghost told = hsm::answer_view(answer);
        let r = public_key_reply(answer);
        proof {
            assert(self.state.hsm.may_export(req.key_id@, told) && tells_public_key(told, r));
        }
        r
    }

    /// Tells how the gateway is. The number of keys is cut to 32 bits.
    pub fn health(&self, _req: HealthRequest) -> (r: Result<HealthResponse, Status>)
        ensures
            r matches Ok(response) && {
                &&& response.status == 1
                &&& self.state.hsm.is_named(response.hsm_backend@)
                &&& response.version@ == state::gateway_version()
                &&& exists|uptime: nat|
                    response.uptime_seconds@ == #[trigger] text::decimal(uptime)
                &&& exists|answer: Result<Seq<hsm::KeyInfoView>, HsmErrorView>| #[trigger]
                    self.state.hsm.may_list(answer) && response.keys_loaded
                        == handlers::keys_listed(answer) as u32
            },
    {
        let answer = self.state.hsm.list_keys();
        let count: usize = count_keys(&answer);
        proof {
            assert(self.state.hsm.may_list(hsm::answer_view(answer)));
        }
        let response = HealthResponse {
            status: 1,
            hsm_backend: self.state.hsm.backend_name().to_owned(),
            version: version(),
            uptime_seconds: decimal_text(seconds_since(&self.start_time)),
            keys_loaded: count as u32,
        };
        Ok(response)
    }
}

// ---- What holds of the calls ----

/// Where the numbers of the algorithms with that initial begin.
pub open spec fn first_number(initial: char) -> int {
    if initial == 'R' {
        1
    } else if initial == 'P' {
        4
    } else if initial == 'E' {
        7
    } else {
        9
    }
}

/// The algorithms are numbered by their names: first those of RSA with PKCS#1 padding, then those with
/// PSS padding, those of elliptic curves and those of shared secrets, and each of these by the length of
/// the digest.
pub proof fn algorithms_are_numbered_by_name(a: Algorithm)
    ensures
        algorithm_number(a) == first_number(config::algorithm_name(a)[0]) + hsm::digest_len(a) / 16
            - 2,
{
    config::names_tell_the_kind_of_key(a);
}

/// HTTP and gRPC tell a backend error in the same words, and with a status and a code that go together.
pub proof fn http_and_grpc_tell_the_same_errors(e: HsmErrorView)
    ensures
        backend_status(e).message == hsm::error_message(e),
        backend_status(e).message == handlers::backend_reply(e).error,
        backend_status(e).code == Code::NotFound <==> handlers::backend_reply(e).status == 404,
        backend_status(e).code == Code::PermissionDenied <==> handlers::backend_reply(e).status
            == 403,
        backend_status(e).code == Code::InvalidArgument <==> handlers::backend_reply(e).status
            == 400,
        backend_status(e).code == Code::Internal <==> e is SigningFailed,
        backend_status(e).code == Code::Unavailable <==> handlers::backend_reply(e).status >= 500
            && !(e is SigningFailed),
{
}

/// A request to sign is turned away without a token that belongs to somebody, from an address that the
/// token's owner may not connect from, and for a key that the owner may not use; and for no other
/// reason.
pub proof fn refusals_are_for_a_reason(
    auth: AuthView,
    token: Option<Seq<char>>,
    ip: IpAddr,
    key: Seq<char>,
)
    ensures
        refusal(auth, token, ip, key) is None <==> auth.allow_all || (auth::token_owner(auth, token)
            matches Some(caller) && auth::ip_ok(auth, caller, ip) && auth::key_ok(
            auth,
            caller,
            key,
        )),
        refusal(auth, token, ip, key) matches Some(status) ==> match auth::token_owner(auth, token) {
            None => status.code == Code::Unauthenticated && status.message
                == "Invalid or missing Bearer token"@,
            Some(caller) => status.code == Code::PermissionDenied && status.message == (
            if auth::ip_ok(auth, caller, ip) {
                handlers::key_refusal(key, caller)
            } else {
                handlers::ip_refusal(ip, caller)
            }),
        },
{
}

/// A signature that comes back is one that was asked for: with the key and of the payload that the
/// request holds, taken for a digest if the request says so; under the algorithm with the number that
/// the request gives, or the one that the key is listed with where that is zero; and under the
/// request's own id, if it has one.
pub proof fn signatures_are_as_asked<B: HsmBackend>(
    state: &AppState<B>,
    peer: IpAddr,
    authorization: Option<Seq<char>>,
    forwarded_for: Option<Seq<char>>,
    req: SignRequest,
    response: SignResponse,
)
    requires
        signs(state, peer, authorization, forwarded_for, req, Ok(response)),
    ensures
        req.algorithm != 0 ==> response.algorithm == req.algorithm,
        req.algorithm == 0 ==> exists|keys: Seq<hsm::KeyInfoView>|
            #[trigger] state.hsm.may_list(Ok(keys)) && (hsm::listed_algorithm(keys, req.key_id@)
                matches Some(own) && response.algorithm == algorithm_number(own)),
        response.key_id@ == req.key_id@,
        exists|a: Algorithm, sig: Seq<u8>|
            response.algorithm == algorithm_number(a) && response.signature_hex@
                == encoding::hex_text(sig) && #[trigger] state.hsm.may_sign(
                req.key_id@,
                a,
                req.payload@,
                req.prehashed,
                Ok(sig),
            ),
        req.request_id@.len() > 0 ==> response.request_id@ == req.request_id@,
        req.request_id@.len() == 0 ==> state::is_uuid_v4(response.request_id@),
{
    let reply: Result<SignResponse, Status> = Ok(response);
    let a = if req.algorithm == 0 {
        assert(signs_listed(state, req, reply));
        let listed = choose|listed: Result<Seq<hsm::KeyInfoView>, HsmErrorView>| #[trigger]
            state.hsm.may_list(listed) && signs_own(state, req, listed, reply);
        assert(listed == Ok::<Seq<hsm::KeyInfoView>, HsmErrorView>(listed->Ok_0));
        assert(state.hsm.may_list(Ok(listed->Ok_0)));
        listed_or_missing(listed, req.key_id@)->Ok_0
    } else {
        algorithm_numbers_round_trip(algorithm_numbered(req.algorithm)->0, req.algorithm);
        algorithm_numbered(req.algorithm)->0
    };
    assert(signs_with(state, req, a, reply));
    let answer = choose|answer: Result<Seq<u8>, HsmErrorView>| #[trigger]
        state.hsm.may_sign(req.key_id@, a, req.payload@, req.prehashed, answer) && tells_signature(
            req,
            a,
            answer,
            reply,
        );
    assert(answer == Ok::<Seq<u8>, HsmErrorView>(answer->Ok_0));
    assert(state.hsm.may_sign(req.key_id@, a, req.payload@, req.prehashed, Ok(answer->Ok_0)));
}

/// A request to sign that is let in, and whose number is an algorithm's, is put to the backend; what the
/// backend cannot do is told. A number from twelve on, or below zero, is no algorithm's.
pub proof fn permitted_requests_reach_the_backend<B: HsmBackend>(
    state: &AppState<B>,
    peer: IpAddr,
    authorization: Option<Seq<char>>,
    forwarded_for: Option<Seq<char>>,
    req: SignRequest,
    reply: Result<SignResponse, Status>,
)
    requires
        signs(state, peer, authorization, forwarded_for, req, reply),
        refusal(
            state.config.auth@,
            auth::bearer(authorization),
            crate::net::client_ip(
                state.config.trusted_proxies.deep_view(),
                peer,
                forwarded_for,
            ),
            req.key_id@,
        ) is None,
    ensures
        1 <= req.algorithm <= 11 ==> exists|a: Algorithm, answer: Result<Seq<u8>, HsmErrorView>|
            algorithm_number(a) == req.algorithm && #[trigger] state.hsm.may_sign(
                req.key_id@,
                a,
                req.payload@,
                req.prehashed,
                answer,
            ) && match answer {
                Ok(sig) => reply matches Ok(response) && response.signature_hex@
                    == encoding::hex_text(sig),
                Err(e) => reply matches Err(s) && s@ == backend_status(e),
            },
        req.algorithm < 0 || req.algorithm > 11 ==> (reply matches Err(s) && s@.code
            == Code::InvalidArgument && s@.message == "Unknown algorithm"@),
{
    if 1 <= req.algorithm <= 11 {
        let a = algorithm_numbered(req.algorithm)->0;
        algorithm_numbers_round_trip(a, req.algorithm);
        assert(signs_with(state, req, a, reply));
        let answer = choose|answer: Result<Seq<u8>, HsmErrorView>| #[trigger]
            state.hsm.may_sign(req.key_id@, a, req.payload@, req.prehashed, answer)
                && tells_signature(req, a, answer, reply);
        assert(state.hsm.may_sign(req.key_id@, a, req.payload@, req.prehashed, answer));
    }
}

/// What Verify says of a signature is what the backend said of it: of that very signature and payload,
/// under the key and the algorithm that were asked for, the payload being taken for a digest if the
/// request says so.
pub proof fn validity_is_the_backends<B: HsmBackend>(
    state: &AppState<B>,
    req: VerifyRequest,
    reply: Result<VerifyResponse, Status>,
)
    requires
        verifies(state, req, reply),
    ensures
        1 <= req.algorithm <= 11 ==> exists|a: Algorithm, answer: Result<bool, HsmErrorView>|
            algorithm_number(a) == req.algorithm && #[trigger] state.hsm.may_verify(
                req.key_id@,
                a,
                req.payload@,
                req.signature@,
                req.prehashed,
                answer,
            ) && match answer {
                Ok(valid) => reply matches Ok(response) && response.valid == valid,
                Err(e) => reply matches Err(s) && s@ == backend_status(e),
            },
        req.algorithm < 1 || req.algorithm > 11 ==> (reply matches Err(s) && s@.code
            == Code::InvalidArgument && s@.message == "Unknown algorithm"@),
        reply matches Ok(response) ==> {
            &&& response.key_id@ == req.key_id@
            &&& response.valid ==> response.message@ == "valid"@
            &&& !response.valid ==> response.message@ == "invalid"@
        },
{
    if 1 <= req.algorithm <= 11 {
        let a = algorithm_numbered(req.algorithm)->0;
        algorithm_numbers_round_trip(a, req.algorithm);
        assert(verifies_with(state, req, a, reply));
        let answer = choose|answer: Result<bool, HsmErrorView>| #[trigger]
            state.hsm.may_verify(
                req.key_id@,
                a,
                req.payload@,
                req.signature@,
                req.prehashed,
                answer,
            ) && tells_validity(req.key_id@, answer, reply);
        assert(state.hsm.may_verify(
            req.key_id@,
            a,
            req.payload@,
            req.signature@,
            req.prehashed,
            answer,
        ));
    }
}

/// The list tells of every key that the backend listed, in its order: its id, description and type, the
/// number of its algorithm, one where it is enabled and two where it is not.
pub proof fn lists_tell_of_every_key(keys: Seq<hsm::KeyInfoView>, i: int)
    ensures
        listed_keys(keys).len() == keys.len(),
        0 <= i < keys.len() ==> {
            let told = listed_keys(keys)[i];
            &&& told.key_id == keys[i].id
            &&& told.description == keys[i].description
            &&& told.key_type == keys[i].key_type
            &&& algorithm_numbered(told.default_algorithm) == Some(keys[i].algorithm)
            &&& told.status == 1 <==> keys[i].enabled
            &&& told.status == 2 <==> !keys[i].enabled
            &&& told.created_at.len() == 0
        },
{
    if 0 <= i < keys.len() {
        algorithm_numbers_round_trip(keys[i].algorithm, 0);
    }
}

/// What is told of a public key is what the backend said of it.
pub proof fn public_keys_are_the_backends(
    key: PublicKeyView,
    e: HsmErrorView,
    reply: Result<GetPublicKeyResponse, Status>,
)
    ensures
        tells_public_key(Ok(key), reply) ==> {
            &&& reply matches Ok(response)
            &&& response.key_id@ == key.key_id
            &&& response.public_key_pem@ == key.pem
            &&& response.key_type@ == key.key_type
            &&& algorithm_numbered(response.algorithm) == Some(key.algorithm)
        },
        tells_public_key(Err(e), reply) ==> (reply matches Err(s) && s@ == backend_status(e)),
{
    algorithm_numbers_round_trip(key.algorithm, 0);
}

/// A request to sign that is let in and leaves the algorithm to the key is put to the backend with the
/// algorithm that the key is listed with. Where the key is not listed it is not found, and where the
/// backend cannot list its keys that is told.
pub proof fn own_algorithms_are_looked_up<B: HsmBackend>(
    state: &AppState<B>,
    peer: IpAddr,
    authorization: Option<Seq<char>>,
    forwarded_for: Option<Seq<char>>,
    req: SignRequest,
    reply: Result<SignResponse, Status>,
    listed: Result<Seq<hsm::KeyInfoView>, HsmErrorView>,
)
    requires
        signs(state, peer, authorization, forwarded_for, req, reply),
        refusal(
            state.config.auth@,
            auth::bearer(authorization),
            state.client_ip(peer, forwarded_for),
            req.key_id@,
        ) is None,
        req.algorithm == 0,
        forall|other: Result<Seq<hsm::KeyInfoView>, HsmErrorView>| #[trigger]
            state.hsm.may_list(other) ==> other == listed,
    ensures
        listed matches Err(e) ==> (reply matches Err(s) && s@ == backend_status(e)),
        listed matches Ok(keys) ==> match hsm::listed_algorithm(keys, req.key_id@) {
            None => reply matches Err(s) && s@.code == Code::NotFound && s@.message
                == "Key not found: "@ + req.key_id@,
            Some(own) => exists|answer: Result<Seq<u8>, HsmErrorView>|
                #[trigger] state.hsm.may_sign(
                    req.key_id@,
                    own,
                    req.payload@,
                    req.prehashed,
                    answer,
                ) && match answer {
                    Ok(sig) => reply matches Ok(response) && response.signature_hex@
                        == encoding::hex_text(sig) && response.algorithm == algorithm_number(own),
                    Err(e) => reply matches Err(s) && s@ == backend_status(e),
                },
        },
{
    assert(signs_listed(state, req, reply));
    let other = choose|other: Result<Seq<hsm::KeyInfoView>, HsmErrorView>| #[trigger]
        state.hsm.may_list(other) && signs_own(state, req, other, reply);
    assert(other == listed);
    if let Ok(own) = listed_or_missing(listed, req.key_id@) {
        assert(signs_with(state, req, own, reply));
        let answer = choose|answer: Result<Seq<u8>, HsmErrorView>| #[trigger]
            state.hsm.may_sign(req.key_id@, own, req.payload@, req.prehashed, answer)
                && tells_signature(req, own, answer, reply);
        assert(state.hsm.may_sign(req.key_id@, own, req.payload@, req.prehashed, answer));
    }
}

/// Whoever is turned away gets no signature: the reply is the reason.
pub proof fn refused_requests_are_told_why<B: HsmBackend>(
    state: &AppState<B>,
    peer: IpAddr,
    authorization: Option<Seq<char>>,
    forwarded_for: Option<Seq<char>>,
    req: SignRequest,
    reply: Result<SignResponse, Status>,
    status: StatusView,
)
    requires
        signs(state, peer, authorization, forwarded_for, req, reply),
        refusal(
            state.config.auth@,
            auth::bearer(authorization),
            crate::net::client_ip(
                state.config.trusted_proxies.deep_view(),
                peer,
                forwarded_for,
            ),
            req.key_id@,
        ) == Some(status),
    ensures
        reply matches Err(s) && s@ == status,
{
}

} // verus!
