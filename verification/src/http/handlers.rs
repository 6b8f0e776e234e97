//! What the HTTP endpoints answer.
//!
//!   POST /v1/sign                 signs a payload
//!   POST /v1/verify               verifies a signature
//!   GET  /v1/keys                 lists the keys
//!   GET  /v1/keys/:key_id/public  gives a public key
//!   GET  /health                  tells how the gateway is

use crate::auth;
use crate::auth::{check_caller, check_ip_allowed, check_key_allowed, extract_bearer};
use crate::config;
use crate::config::{Algorithm, AuthView};
use crate::encoding;
use crate::encoding::{base64_decode, base64_url_decode, hex_decode, hex_encode, is_hex};
use crate::hsm;
use crate::hsm::software;
use crate::hsm::software::SoftwareHsm;
use crate::hsm::{
    algorithm_of, HsmBackend, HsmError, HsmErrorView, HsmResult, KeyInfo, KeyInfoView, PublicKey,
    PublicKeyView, Signature,
};
use crate::net;
use crate::net::{ip_text, IpAddr};
use crate::state;
use crate::state::{new_id, seconds_since, time_stamp, version, AppState};
use crate::string_map;
use crate::text;
use crate::text::{decimal_text, join2, join5, same, to_uppercase};
use vstd::prelude::*;
use vstd::string::*;
use vstd::utf8::*;

verus! {

// ---- Requests and responses ----

#[derive(Debug)]
pub struct SignHttpRequest {
    /// The calling service.
    pub caller_id: String,
    /// The key; the first one that is listed, where it is empty.
    pub key_id: String,
    /// The algorithm; the key's own, where there is none.
    pub algorithm: Option<String>,
    /// The payload in hex, base64 or base64url.
    pub payload: String,
    /// Is the payload a digest already?
    pub prehashed: bool,
    /// The id under which the client knows the request.
    pub request_id: Option<String>,
}

#[derive(Debug)]
pub struct SignHttpResponse {
    pub signature_hex: String,
    pub key_id: String,
    pub algorithm: String,
    pub signed_at: String,
    pub request_id: String,
}

#[derive(Debug)]
pub struct VerifyHttpRequest {
    pub key_id: String,
    pub algorithm: String,
    pub payload: String,
    pub signature: String,
    pub prehashed: bool,
}

#[derive(Debug)]
pub struct VerifyHttpResponse {
    pub valid: bool,
    pub key_id: String,
    pub message: String,
}

#[derive(Debug)]
pub struct HealthResponse {
    pub status: String,
    pub hsm_backend: String,
    pub version: String,
    pub uptime_seconds: String,
    pub keys_loaded: usize,
}

#[derive(Debug)]
pub struct ErrorResponse {
    pub error: String,
    pub code: String,
}

/// A status other than 200, and the body that goes with it.
#[derive(Debug)]
pub struct ErrorReply {
    pub status: u16,
    pub body: ErrorResponse,
}

/// What an `ErrorReply` says.
#[verifier::ext_equal]
pub struct ErrorReplyView {
    pub status: u16,
    pub code: Seq<char>,
    pub error: Seq<char>,
}

impl View for ErrorReply {
    type V = ErrorReplyView;

    open spec fn view(&self) -> ErrorReplyView {
        ErrorReplyView { status: self.status, code: self.body.code@, error: self.body.error@ }
    }
}

/// An error reply.
fn error_reply(status: u16, code: &str, error: String) -> (r: ErrorReply)
    ensures
        r@ == (ErrorReplyView { status, code: code@, error: error@ }),
{
    ErrorReply { status, body: ErrorResponse { error, code: code.to_owned() } }
}

// ---- Backend errors ----

/// The status and the code of a backend error.
pub open spec fn error_status(e: HsmErrorView) -> (u16, Seq<char>) {
    match e {
        HsmErrorView::KeyNotFound(_) => (404, "KEY_NOT_FOUND"@),
        HsmErrorView::KeyDisabled(_) => (403, "KEY_DISABLED"@),
        HsmErrorView::AlgorithmNotSupported { .. } => (400, "ALGO_NOT_SUPPORTED"@),
        HsmErrorView::SigningFailed(_) => (500, "SIGNING_FAILED"@),
        HsmErrorView::VerificationFailed(_) => (400, "VERIFICATION_FAILED"@),
        HsmErrorView::BackendError(_) => (503, "BACKEND_ERROR"@),
        _ => (500, "INTERNAL_ERROR"@),
    }
}

/// The reply that tells of a backend error.
pub open spec fn backend_reply(e: HsmErrorView) -> ErrorReplyView {
    ErrorReplyView {
        status: error_status(e).0,
        code: error_status(e).1,
        error: hsm::error_message(e),
    }
}

impl HsmError {
    /// The reply that tells of the error.
    pub fn into_response(self) -> (r: ErrorReply)
        ensures
            r@ == backend_reply(self@),
    {
        let error = self.to_string();
        match self {
            HsmError::KeyNotFound(_) => error_reply(404, "KEY_NOT_FOUND", error),
            HsmError::KeyDisabled(_) => error_reply(403, "KEY_DISABLED", error),
            HsmError::AlgorithmNotSupported { .. } => error_reply(400, "ALGO_NOT_SUPPORTED", error),
            HsmError::SigningFailed(_) => error_reply(500, "SIGNING_FAILED", error),
            HsmError::VerificationFailed(_) => error_reply(400, "VERIFICATION_FAILED", error),
            HsmError::BackendError(_) => error_reply(503, "BACKEND_ERROR", error),
            _ => error_reply(500, "INTERNAL_ERROR", error),
        }
    }
}

// ---- Payloads and algorithms ----

/// The bytes of a payload: read as hex where it is made of pairs of hex digits, else as base64,
/// else as base64url.
pub open spec fn payload_bytes(s: Seq<char>) -> Result<Seq<u8>, Seq<char>> {
    if encoding::is_hex_text(s) {
        Ok(encoding::hex_bytes(s))
    } else {
        first_readable(encoding::base64_bytes(s), encoding::base64_url_bytes(s))
    }
}

/// The first of two readings, if it gave bytes; else the second.
pub open spec fn first_readable(
    standard: Result<Seq<u8>, Seq<char>>,
    url_safe: Result<Seq<u8>, Seq<char>>,
) -> Result<Seq<u8>, Seq<char>> {
    match standard {
        Ok(bytes) => Ok(bytes),
        Err(_) => url_safe,
    }
}

/// The first of two readings, if it gave bytes; else the second.
pub fn pick_readable(standard: Result<Vec<u8>, String>, url_safe: Result<Vec<u8>, String>) -> (r:
    Result<Vec<u8>, String>)
    ensures
        encoding::bytes_or_fault(r) == first_readable(
            encoding::bytes_or_fault(standard),
            encoding::bytes_or_fault(url_safe),
        ),
{
    match standard {
        Ok(bytes) => Ok(bytes),
        Err(_) => url_safe,
    }
}

/// The bytes of a payload in hex, base64 or base64url. Hex is tried first. A text that is no hex and
/// that either form of base64 reads gives the bytes which that form reads.
pub fn decode_payload(s: &str) -> (r: Result<Vec<u8>, String>)
    ensures
        encoding::bytes_or_fault(r) == payload_bytes(s@),
        encoding::base64_bytes(s@) is Ok ==> !encoding::is_hex_text(s@) ==> payload_bytes(s@)
            == encoding::base64_bytes(s@),
        encoding::base64_url_bytes(s@) is Ok ==> !encoding::is_hex_text(s@) ==> payload_bytes(s@)
            == encoding::base64_url_bytes(s@),
{
    if is_hex(s) {
        return hex_decode(s);
    }
    pick_readable(base64_decode(s), base64_url_decode(s))
}

/// A payload in hex is read back as it was.
pub proof fn hex_payloads_come_back(bytes: Seq<u8>)
    ensures
        payload_bytes(encoding::hex_text(bytes)) == Ok::<Seq<u8>, Seq<char>>(bytes),
{
    encoding::hex_round_trip(bytes);
}

/// A payload in hex is read back as it was, whatever case its digits are in.
pub proof fn hex_payloads_come_back_in_either_case(s: Seq<char>, bytes: Seq<u8>)
    requires
        encoding::spells(s, bytes),
    ensures
        payload_bytes(s) == Ok::<Seq<u8>, Seq<char>>(bytes),
{
    encoding::hex_is_read_in_either_case(s, bytes);
}

/// A payload in base64 is read back as it was, unless its base64 form could be hex.
pub proof fn base64_payloads_come_back(s: Seq<char>, bytes: Seq<u8>)
    requires
        encoding::reads_as(s, bytes),
        !encoding::is_hex_text(s),
    ensures
        payload_bytes(s) == Ok::<Seq<u8>, Seq<char>>(bytes),
{
}

/// The algorithm that a text names, in whatever case.
pub open spec fn parsed_algorithm(s: Seq<char>) -> Result<Algorithm, Seq<char>> {
    named_algorithm(text::uppercase(s))
}

/// The algorithm with that name, in upper case.
pub open spec fn named_algorithm(upper: Seq<char>) -> Result<Algorithm, Seq<char>> {
    match config::algorithm_named(upper) {
        Some(a) => Ok(a),
        None => Err("Unknown algorithm: "@ + upper),
    }
}

/// The algorithm, or what the fault says.
pub open spec fn algorithm_or_fault(r: Result<Algorithm, String>) -> Result<Algorithm, Seq<char>> {
    match r {
        Ok(a) => Ok(a),
        Err(e) => Err(e@),
    }
}

/// The algorithm with that name, in upper case.
pub fn find_algorithm(name: &str) -> (r: Result<Algorithm, String>)
    ensures
        algorithm_or_fault(r) == named_algorithm(name@),
{
    if same(name, "RS256") {
        Ok(Algorithm::Rs256)
    } else if same(name, "RS384") {
        Ok(Algorithm::Rs384)
    } else if same(name, "RS512") {
        Ok(Algorithm::Rs512)
    } else if same(name, "PS256") {
        Ok(Algorithm::Ps256)
    } else if same(name, "PS384") {
        Ok(Algorithm::Ps384)
    } else if same(name, "PS512") {
        Ok(Algorithm::Ps512)
    } else if same(name, "ES256") {
        Ok(Algorithm::Es256)
    } else if same(name, "ES384") {
        Ok(Algorithm::Es384)
    } else if same(name, "HS256") {
        Ok(Algorithm::Hs256)
    } else if same(name, "HS384") {
        Ok(Algorithm::Hs384)
    } else if same(name, "HS512") {
        Ok(Algorithm::Hs512)
    } else {
        Err(join2("Unknown algorithm: ", name))
    }
}

/// The algorithm that the text names. The case of ASCII letters does not matter.
pub fn parse_algorithm(s: &str) -> (r: Result<Algorithm, String>)
    ensures
        algorithm_or_fault(r) == parsed_algorithm(s@),
        is_ascii_chars(s@) ==> forall|a: Algorithm|
            (r matches Ok(b) && a == b) <==> s@.map_values(|c: char| text::ascii_upper(c))
                == #[trigger] config::algorithm_name(a),
        forall|a: Algorithm| s@ == #[trigger] config::algorithm_name(a) ==> r == Ok::<_, String>(a),
{
    let upper = to_uppercase(s);
    proof {
        assert forall|a: Algorithm|
            config::algorithm_named(upper@) == Some(a) <==> upper@
                == #[trigger] config::algorithm_name(a) by {
            config::algorithm_is_found_by_name(a, upper@);
        }
        assert forall|a: Algorithm| s@ == #[trigger] config::algorithm_name(a) implies upper@
            == s@ by {
            config::algorithm_names_are_upper_case(a);
        }
    }
    find_algorithm(upper.as_str())
}

// ---- Refusals ----

/// The caller is not who they say they are.
pub open spec fn unauthorized() -> ErrorReplyView {
    ErrorReplyView { status: 401, code: "UNAUTHORIZED"@, error: "Unauthorized"@ }
}

/// What is said of an address that the caller may not connect from.
pub open spec fn ip_refusal(ip: IpAddr, caller: Seq<char>) -> Seq<char> {
    "Source IP '"@ + net::ip_display(ip) + "' is not permitted for caller '"@ + caller + "'"@
}

/// What is said of a key that the caller may not use.
pub open spec fn key_refusal(key: Seq<char>, caller: Seq<char>) -> Seq<char> {
    "Key '"@ + key + "' is not permitted for caller '"@ + caller + "'"@
}

/// The caller may not connect from the address.
pub open spec fn ip_forbidden(ip: IpAddr, caller: Seq<char>) -> ErrorReplyView {
    ErrorReplyView { status: 403, code: "IP_NOT_ALLOWED"@, error: ip_refusal(ip, caller) }
}

/// The caller may not use the key.
pub open spec fn key_forbidden(key: Seq<char>, caller: Seq<char>) -> ErrorReplyView {
    ErrorReplyView { status: 403, code: "KEY_NOT_ALLOWED"@, error: key_refusal(key, caller) }
}

/// The payload cannot be read.
pub open spec fn bad_payload(fault: Seq<char>) -> ErrorReplyView {
    ErrorReplyView {
        status: 400,
        code: "INVALID_PAYLOAD"@,
        error: "Invalid payload (expected hex, base64, or base64url): "@ + fault,
    }
}

/// The signature cannot be read.
pub open spec fn bad_signature(fault: Seq<char>) -> ErrorReplyView {
    ErrorReplyView {
        status: 400,
        code: "INVALID_SIGNATURE"@,
        error: "Invalid signature: "@ + fault,
    }
}

/// There is no such algorithm.
pub open spec fn bad_algorithm(fault: Seq<char>) -> ErrorReplyView {
    ErrorReplyView { status: 400, code: "INVALID_ALGORITHM"@, error: fault }
}

/// What is said of an address that the caller may not connect from.
pub fn ip_refusal_text(ip: IpAddr, caller: &str) -> (r: String)
    ensures
        r@ == ip_refusal(ip, caller@),
{
    join5(
        "Source IP '",
        ip_text(ip).as_str(),
        "' is not permitted for caller '",
        caller,
        "'",
    )
}

/// What is said of a key that the caller may not use.
pub fn key_refusal_text(key: &str, caller: &str) -> (r: String)
    ensures
        r@ == key_refusal(key@, caller@),
{
    join5("Key '", key, "' is not permitted for caller '", caller, "'")
}

/// Why a request to sign is turned away before anything else is done, if it is. The token comes
/// first, then the address, then the key.
pub open spec fn refusal(
    auth: AuthView,
    caller: Seq<char>,
    token: Option<Seq<char>>,
    ip: IpAddr,
    key: Seq<char>,
) -> Option<ErrorReplyView> {
    if !auth::caller_ok(auth, caller, token) {
        Some(unauthorized())
    } else if !auth::ip_ok(auth, caller, ip) {
        Some(ip_forbidden(ip, caller))
    } else if key.len() > 0 && !auth::key_ok(auth, caller, key) {
        Some(key_forbidden(key, caller))
    } else {
        None
    }
}

/// What an optional error reply says.
pub open spec fn option_reply(r: Option<ErrorReply>) -> Option<ErrorReplyView> {
    match r {
        Some(r) => Some(r@),
        None => None,
    }
}

/// Why a request to sign is turned away before anything else is done, if it is.
pub fn check_request<B: HsmBackend>(
    state: &AppState<B>,
    caller: &str,
    token: Option<&str>,
    ip: IpAddr,
    key: &str,
) -> (r: Option<ErrorReply>)
    ensures
        option_reply(r) == refusal(
            state.config.auth@,
            caller@,
            text::option_view(token),
            ip,
            key@,
        ),
{
    if !check_caller(state, caller, token) {
        return Some(error_reply(401, "UNAUTHORIZED", "Unauthorized".to_owned()));
    }
    if !check_ip_allowed(state, caller, ip) {
        return Some(error_reply(403, "IP_NOT_ALLOWED", ip_refusal_text(ip, caller)));
    }
    if !key.is_empty() && !check_key_allowed(state, caller, key) {
        return Some(error_reply(403, "KEY_NOT_ALLOWED", key_refusal_text(key, caller)));
    }
    None
}

// ---- POST /v1/sign ----

/// The key to sign with: the one that was asked for, else the first one that is listed. The caller
/// must be allowed to use it.
pub open spec fn chosen_key(
    auth: AuthView,
    req: SignHttpRequest,
    keys: Seq<KeyInfoView>,
) -> Result<Seq<char>, ErrorReplyView> {
    if req.key_id@.len() == 0 && keys.len() == 0 {
        Err(backend_reply(HsmErrorView::KeyNotFound("no keys registered"@)))
    } else {
        let key = if req.key_id@.len() == 0 {
            keys[0].id
        } else {
            req.key_id@
        };
        if auth::key_ok(auth, req.caller_id@, key) {
            Ok(key)
        } else {
            Err(key_forbidden(key, req.caller_id@))
        }
    }
}

/// The algorithm to sign with: the one that was asked for, else the key's own.
pub open spec fn chosen_algorithm(
    asked: Option<String>,
    keys: Seq<KeyInfoView>,
    key: Seq<char>,
) -> Result<Algorithm, ErrorReplyView> {
    match asked {
        Some(name) => match parsed_algorithm(name@) {
            Ok(a) => Ok(a),
            Err(e) => Err(bad_algorithm(e)),
        },
        None => match hsm::listed_algorithm(keys, key) {
            Some(a) => Ok(a),
            None => Err(backend_reply(HsmErrorView::KeyNotFound(key))),
        },
    }
}

/// The key and the algorithm to sign with, given the backend's list of keys.
pub open spec fn chosen(
    auth: AuthView,
    req: SignHttpRequest,
    listed: Result<Seq<KeyInfoView>, HsmErrorView>,
) -> Result<(Seq<char>, Algorithm), ErrorReplyView> {
    match listed {
        Err(e) => Err(backend_reply(e)),
        Ok(keys) => match chosen_key(auth, req, keys) {
            Err(r) => Err(r),
            Ok(key) => match chosen_algorithm(req.algorithm, keys, key) {
                Err(r) => Err(r),
                Ok(algorithm) => Ok((key, algorithm)),
            },
        },
    }
}

/// What a choice says.
pub open spec fn choice_view(r: Result<(String, Algorithm), ErrorReply>) -> Result<
    (Seq<char>, Algorithm),
    ErrorReplyView,
> {
    match r {
        Ok((key, algorithm)) => Ok((key@, algorithm)),
        Err(r) => Err(r@),
    }
}

/// The key and the algorithm to sign with, given the backend's list of keys.
pub fn choose_key<B: HsmBackend>(
    state: &AppState<B>,
    req: &SignHttpRequest,
    listed: HsmResult<Vec<KeyInfo>>,
) -> (r: Result<(String, Algorithm), ErrorReply>)
    ensures
        choice_view(r) == chosen(state.config.auth@, *req, hsm::answer_view(listed)),
{
    let keys = match listed {
        Ok(keys) => keys,
        Err(e) => return Err(e.into_response()),
    };
    let ghost all = keys.deep_view();
    let key = if req.key_id.as_str().is_empty() {
        if keys.len() == 0 {
            return Err(HsmError::KeyNotFound("no keys registered".to_owned()).into_response());
        }
        proof {
            assert(all[0] == keys@[0]@);
        }
        keys[0].id.clone()
    } else {
        req.key_id.clone()
    };
    if !check_key_allowed(state, req.caller_id.as_str(), key.as_str()) {
        return Err(
            error_reply(
                403,
                "KEY_NOT_ALLOWED",
                key_refusal_text(key.as_str(), req.caller_id.as_str()),
            ),
        );
    }
    let algorithm = match &req.algorithm {
        Some(name) => match parse_algorithm(name.as_str()) {
            Ok(a) => a,
            Err(e) => return Err(error_reply(400, "INVALID_ALGORITHM", e)),
        },
        None => match algorithm_of(&keys, key.as_str()) {
            Some(a) => a,
            None => return Err(HsmError::KeyNotFound(key).into_response()),
        },
    };
    Ok((key, algorithm))
}

/// What comes of a request to sign.
#[derive(Debug)]
pub enum SignReply {
    /// The payload was signed.
    Signed(SignHttpResponse),
    /// The backend was asked for a signature and gave none.
    Failed(ErrorReply),
    /// The backend was not asked.
    Refused(ErrorReply),
}

/// The reply tells what the backend answered when it was asked for a signature. The time of the
/// signature, and the id of a request that came without one, are not fixed.
pub open spec fn tells_signature(
    req: SignHttpRequest,
    key: Seq<char>,
    algorithm: Algorithm,
    answer: Result<Seq<u8>, HsmErrorView>,
    reply: SignReply,
) -> bool {
    match answer {
        Err(e) => reply matches SignReply::Failed(r) && r@ == backend_reply(e),
        Ok(sig) => {
            &&& reply matches SignReply::Signed(response)
            &&& response.signature_hex@ == encoding::hex_text(sig)
            &&& response.key_id@ == key
            &&& response.algorithm@ == config::algorithm_name(algorithm)
            &&& match req.request_id {
                Some(id) => response.request_id@ == id@,
                None => state::is_uuid_v4(response.request_id@),
            }
        },
    }
}

/// The reply to a request to sign, given what the backend answered, the time and the request's id.
pub fn sign_reply(
    key_id: String,
    algorithm: Algorithm,
    answer: HsmResult<Signature>,
    signed_at: String,
    request_id: String,
) -> (r: SignReply)
    ensures
        match answer {
            Ok(sig) => {
                &&& r matches SignReply::Signed(response)
                &&& response.signature_hex@ == encoding::hex_text(sig@)
                &&& response.key_id@ == key_id@
                &&& response.algorithm@ == config::algorithm_name(algorithm)
                &&& response.signed_at@ == signed_at@
                &&& response.request_id@ == request_id@
            },
            Err(e) => r matches SignReply::Failed(reply) && reply@ == backend_reply(e@),
        },
{
    match answer {
        Ok(sig) => SignReply::Signed(
            SignHttpResponse {
                signature_hex: hex_encode(sig.0.as_slice()),
                key_id,
                algorithm: algorithm.to_string(),
                signed_at,
                request_id,
            },
        ),
        Err(e) => SignReply::Failed(e.into_response()),
    }
}

/// The backend is asked to sign with the key, and the reply tells what it answered.
pub open spec fn signs_with<B: HsmBackend>(
    state: &AppState<B>,
    req: SignHttpRequest,
    key: Seq<char>,
    algorithm: Algorithm,
    payload: Seq<u8>,
    reply: SignReply,
) -> bool {
    exists|answer: Result<Seq<u8>, HsmErrorView>| #[trigger]
        state.hsm.may_sign(key, algorithm, payload, req.prehashed, answer) && tells_signature(
            req,
            key,
            algorithm,
            answer,
            reply,
        )
}

/// The reply to a request to sign that was let in and has a payload, given the list of keys.
pub open spec fn signs_chosen<B: HsmBackend>(
    state: &AppState<B>,
    req: SignHttpRequest,
    payload: Seq<u8>,
    listed: Result<Seq<KeyInfoView>, HsmErrorView>,
    reply: SignReply,
) -> bool {
    match chosen(state.config.auth@, req, listed) {
        Err(refused) => reply matches SignReply::Refused(r) && r@ == refused,
        Ok((key, algorithm)) => signs_with(state, req, key, algorithm, payload, reply),
    }
}

/// The reply to a request to sign that was let in and has a payload.
pub open spec fn signs_listed<B: HsmBackend>(
    state: &AppState<B>,
    req: SignHttpRequest,
    payload: Seq<u8>,
    reply: SignReply,
) -> bool {
    exists|listed: Result<Seq<KeyInfoView>, HsmErrorView>| #[trigger]
        state.hsm.may_list(listed) && signs_chosen(state, req, payload, listed, reply)
}

/// The reply to a request to sign.
pub open spec fn signs<B: HsmBackend>(
    state: &AppState<B>,
    peer: IpAddr,
    authorization: Option<Seq<char>>,
    forwarded_for: Option<Seq<char>>,
    req: SignHttpRequest,
    reply: SignReply,
) -> bool {
    match refusal(
        state.config.auth@,
        req.caller_id@,
        auth::bearer(authorization),
        state.client_ip(peer, forwarded_for),
        req.key_id@,
    ) {
        Some(refused) => reply matches SignReply::Refused(r) && r@ == refused,
        None => match payload_bytes(req.payload@) {
            Err(e) => reply matches SignReply::Refused(r) && r@ == bad_payload(e),
            Ok(payload) => signs_listed(state, req, payload, reply),
        },
    }
}

/// POST /v1/sign
pub fn handle_sign<B: HsmBackend>(
    state: &AppState<B>,
    peer: IpAddr,
    authorization: Option<&str>,
    forwarded_for: Option<&str>,
    req: SignHttpRequest,
) -> (r: SignReply)
    ensures
        signs(
            state,
            peer,
            text::option_view(authorization),
            text::option_view(forwarded_for),
            req,
            r,
        ),
{
    let token = extract_bearer(authorization);
    let ip = state.resolve_client_ip(peer, forwarded_for);
    if let Some(refused) = check_request(state, req.caller_id.as_str(), token, ip, req.key_id.as_str()) {
        return SignReply::Refused(refused);
    }
    let payload = match decode_payload(req.payload.as_str()) {
        Ok(payload) => payload,
        Err(e) => return SignReply::Refused(
            error_reply(
                400,
                "INVALID_PAYLOAD",
                join2("Invalid payload (expected hex, base64, or base64url): ", e.as_str()),
            ),
        ),
    };
    let listed = state.hsm.list_keys();
    let ghost list = hsm::answer_view(listed);
    let (key, algorithm) = match choose_key(state, &req, listed) {
        Ok(choice) => choice,
        Err(refused) => {
            let r = SignReply::Refused(refused);
            proof {
                assert(signs_chosen(state, req, payload@, list, r));
            }
            return r;
        },
    };
    let request_id = match &req.request_id {
        Some(id) => id.clone(),
        None => new_id(),
    };
    let answer = state.hsm.sign(key.as_str(), algorithm, payload.as_slice(), req.prehashed);
    let ghost (asked, told) = (key@, hsm::answer_view(answer));
    let r = sign_reply(key, algorithm, answer, time_stamp(), request_id);
    proof {
        assert(tells_signature(req, asked, algorithm, told, r));
        assert(signs_with(state, req, asked, algorithm, payload@, r));
        assert(signs_chosen(state, req, payload@, list, r));
    }
    r
}

// ---- What holds of signing ----

/// Without the right token nothing is signed, whatever the backend does: the answer is 401.
pub proof fn wrong_token_is_unauthorized<B: HsmBackend>(
    state: &AppState<B>,
    peer: IpAddr,
    authorization: Option<Seq<char>>,
    forwarded_for: Option<Seq<char>>,
    req: SignHttpRequest,
    reply: SignReply,
)
    requires
        signs(state, peer, authorization, forwarded_for, req, reply),
        !auth::caller_ok(state.config.auth@, req.caller_id@, auth::bearer(authorization)),
    ensures
        reply matches SignReply::Refused(r) && r@ == unauthorized(),
{
}

/// From an address that the caller may not connect from nothing is signed: with the right token the
/// answer is 403.
pub proof fn wrong_address_is_forbidden<B: HsmBackend>(
    state: &AppState<B>,
    peer: IpAddr,
    authorization: Option<Seq<char>>,
    forwarded_for: Option<Seq<char>>,
    req: SignHttpRequest,
    reply: SignReply,
)
    requires
        signs(state, peer, authorization, forwarded_for, req, reply),
        auth::caller_ok(state.config.auth@, req.caller_id@, auth::bearer(authorization)),
        !auth::ip_ok(state.config.auth@, req.caller_id@, state.client_ip(peer, forwarded_for)),
    ensures
        reply matches SignReply::Refused(r) && r@ == ip_forbidden(
            state.client_ip(peer, forwarded_for),
            req.caller_id@,
        ),
{
}

/// A key outside the caller's allowlist is not used: with the right token and address the answer is
/// 403.
pub proof fn wrong_key_is_forbidden<B: HsmBackend>(
    state: &AppState<B>,
    peer: IpAddr,
    authorization: Option<Seq<char>>,
    forwarded_for: Option<Seq<char>>,
    req: SignHttpRequest,
    reply: SignReply,
)
    requires
        signs(state, peer, authorization, forwarded_for, req, reply),
        auth::caller_ok(state.config.auth@, req.caller_id@, auth::bearer(authorization)),
        auth::ip_ok(state.config.auth@, req.caller_id@, state.client_ip(peer, forwarded_for)),
        req.key_id@.len() > 0,
        !auth::key_ok(state.config.auth@, req.caller_id@, req.key_id@),
    ensures
        reply matches SignReply::Refused(r) && r@ == key_forbidden(req.key_id@, req.caller_id@),
{
}

/// Whoever gets a signature has the right token, connects from an address and uses a key that they
/// are allowed. The key is the one they asked for, if they asked for one; and the signature is one
/// that the backend gave for it.
pub proof fn signatures_are_permitted<B: HsmBackend>(
    state: &AppState<B>,
    peer: IpAddr,
    authorization: Option<Seq<char>>,
    forwarded_for: Option<Seq<char>>,
    req: SignHttpRequest,
    reply: SignReply,
)
    requires
        signs(state, peer, authorization, forwarded_for, req, reply),
    ensures
        reply matches SignReply::Signed(response) ==> {
            &&& auth::caller_ok(state.config.auth@, req.caller_id@, auth::bearer(authorization))
            &&& auth::ip_ok(
                state.config.auth@,
                req.caller_id@,
                state.client_ip(peer, forwarded_for),
            )
            &&& auth::key_ok(state.config.auth@, req.caller_id@, response.key_id@)
            &&& req.key_id@.len() > 0 ==> response.key_id@ == req.key_id@
            &&& payload_bytes(req.payload@) is Ok
            &&& exists|algorithm: Algorithm, sig: Seq<u8>|
                response.signature_hex@ == encoding::hex_text(sig) && response.algorithm@
                    == config::algorithm_name(algorithm) && #[trigger] state.hsm.may_sign(
                    response.key_id@,
                    algorithm,
                    payload_bytes(req.payload@)->Ok_0,
                    req.prehashed,
                    Ok(sig),
                )
        },
{
    if let SignReply::Signed(response) = reply {
        let payload = payload_bytes(req.payload@)->Ok_0;
        assert(signs_listed(state, req, payload, reply));
        let listed = choose|listed: Result<Seq<KeyInfoView>, HsmErrorView>| #[trigger]
            state.hsm.may_list(listed) && signs_chosen(state, req, payload, listed, reply);
        let (key, algorithm) = chosen(state.config.auth@, req, listed)->Ok_0;
        assert(signs_with(state, req, key, algorithm, payload, reply));
        let answer = choose|answer: Result<Seq<u8>, HsmErrorView>| #[trigger]
            state.hsm.may_sign(key, algorithm, payload, req.prehashed, answer) && tells_signature(
                req,
                key,
                algorithm,
                answer,
                reply,
            );
        assert(answer is Ok);
    }
}

// ---- POST /v1/verify ----

/// What a request to verify asks the backend, or why it asks nothing. The payload is read first,
/// then the signature, then the algorithm.
pub open spec fn verify_question(req: VerifyHttpRequest) -> Result<
    (Algorithm, Seq<u8>, Seq<u8>),
    ErrorReplyView,
> {
    match payload_bytes(req.payload@) {
        Err(e) => Err(bad_payload(e)),
        Ok(payload) => match payload_bytes(req.signature@) {
            Err(e) => Err(bad_signature(e)),
            Ok(signature) => match parsed_algorithm(req.algorithm@) {
                Err(e) => Err(bad_algorithm(e)),
                Ok(algorithm) => Ok((algorithm, payload, signature)),
            },
        },
    }
}

/// The reply tells whether the signature is valid.
pub open spec fn tells_validity(
    key: Seq<char>,
    answer: Result<bool, HsmErrorView>,
    reply: Result<VerifyHttpResponse, ErrorReply>,
) -> bool {
    match answer {
        Err(e) => reply matches Err(r) && r@ == backend_reply(e),
        Ok(valid) => {
            &&& reply matches Ok(response)
            &&& response.valid == valid
            &&& response.key_id@ == key
            &&& response.message@ == (if valid {
                "Signature is valid"@
            } else {
                "Signature is invalid"@
            })
        },
    }
}

/// The reply to a request to verify, given what the backend answered.
pub fn verify_reply(key_id: String, answer: HsmResult<bool>) -> (r: Result<
    VerifyHttpResponse,
    ErrorReply,
>)
    ensures
        tells_validity(key_id@, hsm::answer_view(answer), r),
{
    match answer {
        Ok(valid) => {
            let message = if valid {
                "Signature is valid"
            } else {
                "Signature is invalid"
            };
            Ok(VerifyHttpResponse { valid, key_id, message: message.to_owned() })
        },
        Err(e) => Err(e.into_response()),
    }
}

/// The backend is asked to verify, and the reply tells what it answered.
pub open spec fn verifies_with<B: HsmBackend>(
    state: &AppState<B>,
    req: VerifyHttpRequest,
    algorithm: Algorithm,
    payload: Seq<u8>,
    signature: Seq<u8>,
    reply: Result<VerifyHttpResponse, ErrorReply>,
) -> bool {
    exists|answer: Result<bool, HsmErrorView>| #[trigger]
        state.hsm.may_verify(
            req.key_id@,
            algorithm,
            payload,
            signature,
            req.prehashed,
            answer,
        ) && tells_validity(req.key_id@, answer, reply)
}

/// The reply to a request to verify.
pub open spec fn verifies<B: HsmBackend>(
    state: &AppState<B>,
    req: VerifyHttpRequest,
    reply: Result<VerifyHttpResponse, ErrorReply>,
) -> bool {
    match verify_question(req) {
        Err(refused) => reply matches Err(r) && r@ == refused,
        Ok((algorithm, payload, signature)) => verifies_with(
            state,
            req,
            algorithm,
            payload,
            signature,
            reply,
        ),
    }
}

/// POST /v1/verify
pub fn handle_verify<B: HsmBackend>(state: &AppState<B>, req: VerifyHttpRequest) -> (r: Result<
    VerifyHttpResponse,
    ErrorReply,
>)
    ensures
        verifies(state, req, r),
{
    let payload = match decode_payload(req.payload.as_str()) {
        Ok(payload) => payload,
        Err(e) => return Err(
            error_reply(
                400,
                "INVALID_PAYLOAD",
                join2("Invalid payload (expected hex, base64, or base64url): ", e.as_str()),
            ),
        ),
    };
    let signature = match decode_payload(req.signature.as_str()) {
        Ok(signature) => signature,
        Err(e) => return Err(
            error_reply(400, "INVALID_SIGNATURE", join2("Invalid signature: ", e.as_str())),
        ),
    };
    let algorithm = match parse_algorithm(req.algorithm.as_str()) {
        Ok(algorithm) => algorithm,
        Err(e) => return Err(error_reply(400, "INVALID_ALGORITHM", e)),
    };
    let answer = state.hsm.verify(
        req.key_id.as_str(),
        algorithm,
        payload.as_slice(),
        signature.as_slice(),
        req.prehashed,
    );
    let ghost told = hsm::answer_view(answer);
    let r = verify_reply(req.key_id.clone(), answer);
    proof {
        assert(tells_validity(req.key_id@, told, r));
        assert(verifies_with(state, req, algorithm, payload@, signature@, r));
    }
    r
}

/// A signature comes back as hex, and /v1/verify reads it as the bytes that were signed: a request
/// to verify with the signature's hex asks the backend about that very signature.
pub proof fn signature_hex_is_read_back(req: VerifyHttpRequest, sig: Seq<u8>)
    requires
        req.signature@ == encoding::hex_text(sig),
        verify_question(req) is Ok,
    ensures
        (verify_question(req)->Ok_0).2 == sig,
{
    hex_payloads_come_back(sig);
}

/// What /v1/sign signs with a key of the software backend, /v1/verify confirms: a
/// request to verify with the key, the payload and the signature hex of the response, and with the
/// algorithm of the response in whatever case, is answered with `valid`.
pub proof fn signed_payloads_verify(
    state: &AppState<SoftwareHsm>,
    peer: IpAddr,
    authorization: Option<Seq<char>>,
    forwarded_for: Option<Seq<char>>,
    req: SignHttpRequest,
    response: SignHttpResponse,
    question: VerifyHttpRequest,
    algorithm: Algorithm,
    reply: Result<VerifyHttpResponse, ErrorReply>,
)
    requires
        signs(state, peer, authorization, forwarded_for, req, SignReply::Signed(response)),
        verifies(state, question, reply),
        question.key_id@ == response.key_id@,
        question.payload@ == req.payload@,
        question.signature@ == response.signature_hex@,
        parsed_algorithm(question.algorithm@) == Ok::<Algorithm, Seq<char>>(algorithm),
        config::algorithm_name(algorithm) == response.algorithm@,
        question.prehashed == req.prehashed,
        string_map::lookup(state.hsm@, response.key_id@) matches Some(key) ==> software::can_verify(
            key.material,
            algorithm,
        ),
    ensures
        reply matches Ok(verified) && verified.valid,
{
    signatures_are_permitted(
        state,
        peer,
        authorization,
        forwarded_for,
        req,
        SignReply::Signed(response),
    );
    let payload = payload_bytes(req.payload@)->Ok_0;
    let (a, sig) = choose|a: Algorithm, sig: Seq<u8>|
        response.signature_hex@ == encoding::hex_text(sig) && response.algorithm@
            == config::algorithm_name(a) && #[trigger] state.hsm.may_sign(
            response.key_id@,
            a,
            payload,
            req.prehashed,
            Ok(sig),
        );
    config::algorithm_names_differ(a, algorithm);
    hex_payloads_come_back(sig);
    assert(verify_question(question) == Ok::<(Algorithm, Seq<u8>, Seq<u8>), ErrorReplyView>(
        (algorithm, payload, sig),
    ));
    assert(verifies_with(state, question, algorithm, payload, sig, reply));
    let answer = choose|answer: Result<bool, HsmErrorView>| #[trigger]
        state.hsm.may_verify(
            question.key_id@,
            algorithm,
            payload,
            sig,
            question.prehashed,
            answer,
        ) && tells_validity(question.key_id@, answer, reply);
    assert(state.hsm.may_sign(
        response.key_id@,
        algorithm,
        payload,
        question.prehashed,
        Ok::<Seq<u8>, HsmErrorView>(sig),
    ));
    software::signatures_verify(
        state.hsm,
        response.key_id@,
        algorithm,
        payload,
        question.prehashed,
        sig,
        answer,
    );
}

// ---- GET /v1/keys, GET /v1/keys/:key_id/public ----

/// The reply tells the keys that the backend listed.
pub open spec fn tells_keys(
    answer: Result<Seq<KeyInfoView>, HsmErrorView>,
    reply: Result<Vec<KeyInfo>, ErrorReply>,
) -> bool {
    match answer {
        Ok(keys) => reply matches Ok(list) && list.deep_view() == keys,
        Err(e) => reply matches Err(r) && r@ == backend_reply(e),
    }
}

/// The reply to a request for the keys, given what the backend answered.
pub fn list_reply(answer: HsmResult<Vec<KeyInfo>>) -> (r: Result<Vec<KeyInfo>, ErrorReply>)
    ensures
        tells_keys(hsm::answer_view(answer), r),
{
    match answer {
        Ok(keys) => Ok(keys),
        Err(e) => Err(e.into_response()),
    }
}

/// GET /v1/keys
pub fn handle_list_keys<B: HsmBackend>(state: &AppState<B>) -> (r: Result<
    Vec<KeyInfo>,
    ErrorReply,
>)
    ensures
        exists|answer: Result<Seq<KeyInfoView>, HsmErrorView>| #[trigger]
            state.hsm.may_list(answer) && tells_keys(answer, r),
{
    let answer = state.hsm.list_keys();
    let ghost told = hsm::answer_view(answer);
    let r = list_reply(answer);
    proof {
        assert(state.hsm.may_list(told) && tells_keys(told, r));
    }
    r
}

/// The reply tells the public key.
pub open spec fn tells_public_key(
    answer: Result<PublicKeyView, HsmErrorView>,
    reply: Result<PublicKey, ErrorReply>,
) -> bool {
    match answer {
        Ok(key) => reply matches Ok(public) && public@ == key,
        Err(e) => reply matches Err(r) && r@ == backend_reply(e),
    }
}

/// The reply to a request for a public key, given what the backend answered.
pub fn public_key_reply(answer: HsmResult<PublicKey>) -> (r: Result<PublicKey, ErrorReply>)
    ensures
        tells_public_key(hsm::answer_view(answer), r),
{
    match answer {
        Ok(key) => Ok(key),
        Err(e) => Err(e.into_response()),
    }
}

/// GET /v1/keys/:key_id/public
pub fn handle_get_public_key<B: HsmBackend>(state: &AppState<B>, key_id: &str) -> (r: Result<
    PublicKey,
    ErrorReply,
>)
    ensures
        exists|answer: Result<PublicKeyView, HsmErrorView>| #[trigger]
            state.hsm.may_export(key_id@, answer) && tells_public_key(answer, r),
{
    let answer = state.hsm.public_key(key_id);
    let ghost told = hsm::answer_view(answer);
    let r = public_key_reply(answer);
    proof {
        assert(state.hsm.may_export(key_id@, told) && tells_public_key(told, r));
    }
    r
}

// ---- GET /health ----

/// How many keys the backend listed; none where it could not.
pub open spec fn keys_listed(answer: Result<Seq<KeyInfoView>, HsmErrorView>) -> nat {
    match answer {
        Ok(keys) => keys.len(),
        Err(_) => 0,
    }
}

/// How many keys were listed; none where the list failed.
pub fn count_keys(answer: &HsmResult<Vec<KeyInfo>>) -> (n: usize)
    ensures
        n == keys_listed(hsm::answer_view(*answer)),
{
    match answer {
        Ok(keys) => keys.len(),
        Err(_) => 0,
    }
}

/// How the gateway is, given the backend's name, how many keys it has, and for how many seconds the
/// gateway runs.
pub fn health_response(backend: &str, keys_loaded: usize, uptime: u64) -> (r: HealthResponse)
    ensures
        r.status@ == "serving"@,
        r.hsm_backend@ == backend@,
        r.version@ == state::gateway_version(),
        r.uptime_seconds@ == text::decimal(uptime as nat),
        r.keys_loaded == keys_loaded,
{
    HealthResponse {
        status: "serving".to_owned(),
        hsm_backend: backend.to_owned(),
        version: version(),
        uptime_seconds: decimal_text(uptime),
        keys_loaded,
    }
}

/// GET /health
pub fn handle_health<B: HsmBackend>(state: &AppState<B>) -> (r: HealthResponse)
    ensures
        r.status@ == "serving"@,
        state.hsm.is_named(r.hsm_backend@),
        r.version@ == state::gateway_version(),
        exists|uptime: nat| r.uptime_seconds@ == #[trigger] text::decimal(uptime),
        exists|answer: Result<Seq<KeyInfoView>, HsmErrorView>| #[trigger]
            state.hsm.may_list(answer) && r.keys_loaded == keys_listed(answer),
{
    let answer = state.hsm.list_keys();
    proof {
        assert(state.hsm.may_list(hsm::answer_view(answer)));
    }
    health_response(
        state.hsm.backend_name(),
        count_keys(&answer),
        seconds_since(&state.start_time),
    )
}

// ---- What holds of payloads and algorithms ----

/// A payload is unreadable exactly if it is no hex and neither form of base64 reads it; it is then
/// told what base64url said of it. One that is no hex and that only base64url reads is read so.
pub proof fn payloads_are_read_in_turn(s: Seq<char>)
    ensures
        payload_bytes(s) is Err <==> !encoding::is_hex_text(s) && encoding::base64_bytes(s) is Err
            && encoding::base64_url_bytes(s) is Err,
        payload_bytes(s) is Err ==> payload_bytes(s) == encoding::base64_url_bytes(s),
        !encoding::is_hex_text(s) && encoding::base64_bytes(s) is Err ==> payload_bytes(s)
            == encoding::base64_url_bytes(s),
        !encoding::is_hex_text(s) && encoding::base64_bytes(s) is Ok ==> payload_bytes(s)
            == encoding::base64_bytes(s),
{
}

/// A text names the algorithm whose name it is in upper case; a text that is no algorithm's name in
/// upper case names none, and is told so.
pub proof fn algorithms_are_named_in_upper_case(s: Seq<char>, a: Algorithm)
    ensures
        parsed_algorithm(s) == Ok::<Algorithm, Seq<char>>(a) <==> text::uppercase(s)
            == config::algorithm_name(a),
        parsed_algorithm(s) matches Err(e) ==> e == "Unknown algorithm: "@ + text::uppercase(s),
{
    config::algorithm_is_found_by_name(a, text::uppercase(s));
}

/// Requests that are turned away are told by status and code: 401 without the right token, 403 for an
/// address or a key that is not allowed, 400 for what cannot be read.
pub proof fn refusals_have_their_status(
    ip: IpAddr,
    key: Seq<char>,
    caller: Seq<char>,
    fault: Seq<char>,
)
    ensures
        unauthorized().status == 401 && unauthorized().code == "UNAUTHORIZED"@,
        ip_forbidden(ip, caller).status == 403 && ip_forbidden(ip, caller).code
            == "IP_NOT_ALLOWED"@,
        ip_forbidden(ip, caller).error == "Source IP '"@ + net::ip_display(ip)
            + "' is not permitted for caller '"@ + caller + "'"@,
        key_forbidden(key, caller).status == 403 && key_forbidden(key, caller).code
            == "KEY_NOT_ALLOWED"@,
        key_forbidden(key, caller).error == "Key '"@ + key + "' is not permitted for caller '"@
            + caller + "'"@,
        bad_payload(fault).status == 400 && bad_payload(fault).code == "INVALID_PAYLOAD"@,
        bad_signature(fault).status == 400 && bad_signature(fault).code == "INVALID_SIGNATURE"@,
        bad_algorithm(fault).status == 400 && bad_algorithm(fault).code == "INVALID_ALGORITHM"@,
        bad_algorithm(fault).error == fault,
{
}

/// A backend error is told with its message. What the client asked wrongly has a status from 400 on,
/// what went wrong in the gateway one from 500 on.
pub proof fn backend_errors_are_told(e: HsmErrorView)
    ensures
        backend_reply(e).error == hsm::error_message(e),
        400 <= backend_reply(e).status < 600,
        backend_reply(e).status == 404 <==> e is KeyNotFound,
        backend_reply(e).status == 403 <==> e is KeyDisabled,
        backend_reply(e).status == 400 <==> e is AlgorithmNotSupported || e is VerificationFailed,
        backend_reply(e).status == 503 <==> e is BackendError,
        backend_reply(e).status == 500 <==> e is SigningFailed || e is ClusterError
            || e is PoolExhausted || e is Io || e is Config,
        e is KeyNotFound ==> backend_reply(e).code == "KEY_NOT_FOUND"@,
        e is KeyDisabled ==> backend_reply(e).code == "KEY_DISABLED"@,
        e is AlgorithmNotSupported ==> backend_reply(e).code == "ALGO_NOT_SUPPORTED"@,
        e is SigningFailed ==> backend_reply(e).code == "SIGNING_FAILED"@,
        e is VerificationFailed ==> backend_reply(e).code == "VERIFICATION_FAILED"@,
        e is BackendError ==> backend_reply(e).code == "BACKEND_ERROR"@,
        e is ClusterError || e is PoolExhausted || e is Io || e is Config ==> backend_reply(e).code
            == "INTERNAL_ERROR"@,
{
}

// ---- What holds of replies ----

/// A signature that comes back is one that was asked for: with the key that the request names, or the
/// first that the backend lists; under the algorithm that the request names, in whatever case, or the
/// one that the key is listed with; of the payload that the request holds, taken for a digest if the
/// request says so; and under the request's own id, if it has one.
pub proof fn signatures_are_as_asked<B: HsmBackend>(
    state: &AppState<B>,
    peer: IpAddr,
    authorization: Option<Seq<char>>,
    forwarded_for: Option<Seq<char>>,
    req: SignHttpRequest,
    response: SignHttpResponse,
)
    requires
        signs(state, peer, authorization, forwarded_for, req, SignReply::Signed(response)),
    ensures
        exists|keys: Seq<KeyInfoView>, a: Algorithm, sig: Seq<u8>|
            {
                &&& #[trigger] state.hsm.may_list(Ok(keys))
                &&& req.key_id@.len() == 0 ==> keys.len() > 0 && response.key_id@ == keys[0].id
                &&& req.key_id@.len() > 0 ==> response.key_id@ == req.key_id@
                &&& req.algorithm matches Some(name) ==> text::uppercase(name@)
                    == config::algorithm_name(a)
                &&& req.algorithm is None ==> hsm::listed_algorithm(keys, response.key_id@) == Some(
                    a,
                )
                &&& response.algorithm@ == config::algorithm_name(a)
                &&& payload_bytes(req.payload@) is Ok
                &&& #[trigger] state.hsm.may_sign(
                    response.key_id@,
                    a,
                    payload_bytes(req.payload@)->Ok_0,
                    req.prehashed,
                    Ok(sig),
                )
                &&& response.signature_hex@ == encoding::hex_text(sig)
            },
        req.request_id matches Some(id) ==> response.request_id@ == id@,
        req.request_id is None ==> state::is_uuid_v4(response.request_id@),
{
    let reply = SignReply::Signed(response);
    let payload = payload_bytes(req.payload@)->Ok_0;
    assert(signs_listed(state, req, payload, reply));
    let listed = choose|listed: Result<Seq<KeyInfoView>, HsmErrorView>| #[trigger]
        state.hsm.may_list(listed) && signs_chosen(state, req, payload, listed, reply);
    let keys = listed->Ok_0;
    assert(listed == Ok::<Seq<KeyInfoView>, HsmErrorView>(keys));
    let (key, a) = chosen(state.config.auth@, req, listed)->Ok_0;
    assert(signs_with(state, req, key, a, payload, reply));
    let answer = choose|answer: Result<Seq<u8>, HsmErrorView>| #[trigger]
        state.hsm.may_sign(key, a, payload, req.prehashed, answer) && tells_signature(
            req,
            key,
            a,
            answer,
            reply,
        );
    let sig = answer->Ok_0;
    assert(answer == Ok::<Seq<u8>, HsmErrorView>(sig));
    if let Some(name) = req.algorithm {
        algorithms_are_named_in_upper_case(name@, a);
    }
    assert(state.hsm.may_list(Ok(keys)));
    assert(state.hsm.may_sign(response.key_id@, a, payload, req.prehashed, Ok(sig)));
}

/// A request to sign is not turned away where the caller has the right token, address and key, the
/// payload can be read, and there are a key and an algorithm for it, whatever the backend lists: the
/// backend is asked for the signature.
pub proof fn permitted_requests_reach_the_backend<B: HsmBackend>(
    state: &AppState<B>,
    peer: IpAddr,
    authorization: Option<Seq<char>>,
    forwarded_for: Option<Seq<char>>,
    req: SignHttpRequest,
    reply: SignReply,
)
    requires
        signs(state, peer, authorization, forwarded_for, req, reply),
        auth::caller_ok(state.config.auth@, req.caller_id@, auth::bearer(authorization)),
        auth::ip_ok(
            state.config.auth@,
            req.caller_id@,
            net::client_ip(state.config.trusted_proxies.deep_view(), peer, forwarded_for),
        ),
        req.key_id@.len() > 0,
        auth::key_ok(state.config.auth@, req.caller_id@, req.key_id@),
        payload_bytes(req.payload@) is Ok,
        forall|listed: Result<Seq<KeyInfoView>, HsmErrorView>| #[trigger]
            state.hsm.may_list(listed) ==> listed is Ok,
        req.algorithm matches Some(name) ==> exists|a: Algorithm|
            text::uppercase(name@) == #[trigger] config::algorithm_name(a),
        req.algorithm is None ==> forall|keys: Seq<KeyInfoView>| #[trigger]
            state.hsm.may_list(Ok(keys)) ==> hsm::listed_algorithm(keys, req.key_id@) is Some,
    ensures
        !(reply is Refused),
{
    let payload = payload_bytes(req.payload@)->Ok_0;
    assert(state.client_ip(peer, forwarded_for) == net::client_ip(
        state.config.trusted_proxies.deep_view(),
        peer,
        forwarded_for,
    ));
    assert(signs_listed(state, req, payload, reply));
    let listed = choose|listed: Result<Seq<KeyInfoView>, HsmErrorView>| #[trigger]
        state.hsm.may_list(listed) && signs_chosen(state, req, payload, listed, reply);
    let keys = listed->Ok_0;
    assert(listed == Ok::<Seq<KeyInfoView>, HsmErrorView>(keys));
    if let Some(name) = req.algorithm {
        let a = choose|a: Algorithm|
            text::uppercase(name@) == #[trigger] config::algorithm_name(a);
        algorithms_are_named_in_upper_case(name@, a);
    }
    let (key, a) = chosen(state.config.auth@, req, listed)->Ok_0;
    assert(signs_with(state, req, key, a, payload, reply));
}

/// A request to sign that was let in is turned away where its payload cannot be read, where it names no
/// algorithm that there is, and where it names no key and the backend lists none or the caller may not
/// use the first one.
pub proof fn unusable_requests_are_refused<B: HsmBackend>(
    state: &AppState<B>,
    peer: IpAddr,
    authorization: Option<Seq<char>>,
    forwarded_for: Option<Seq<char>>,
    req: SignHttpRequest,
    reply: SignReply,
)
    requires
        signs(state, peer, authorization, forwarded_for, req, reply),
    ensures
        payload_bytes(req.payload@) is Err ==> reply is Refused,
        req.algorithm matches Some(name) ==> (forall|a: Algorithm|
            text::uppercase(name@) != #[trigger] config::algorithm_name(a)) ==> reply is Refused,
        req.key_id@.len() == 0 && (forall|keys: Seq<KeyInfoView>| #[trigger]
            state.hsm.may_list(Ok(keys)) ==> keys.len() == 0 || !auth::key_ok(
                state.config.auth@,
                req.caller_id@,
                keys[0].id,
            )) ==> reply is Refused,
{
    if !(reply is Refused) {
        let payload = payload_bytes(req.payload@)->Ok_0;
        assert(signs_listed(state, req, payload, reply));
        let listed = choose|listed: Result<Seq<KeyInfoView>, HsmErrorView>| #[trigger]
            state.hsm.may_list(listed) && signs_chosen(state, req, payload, listed, reply);
        let keys = listed->Ok_0;
        assert(listed == Ok::<Seq<KeyInfoView>, HsmErrorView>(keys));
        assert(state.hsm.may_list(Ok(keys)));
        if let Some(name) = req.algorithm {
            let a = parsed_algorithm(name@)->Ok_0;
            algorithms_are_named_in_upper_case(name@, a);
        }
    }
}

/// What /v1/verify says of a signature is what the backend said of it: of that very signature and
/// payload, under the key and the algorithm that were asked for, the payload being taken for a digest
/// if the request says so.
pub proof fn validity_is_the_backends<B: HsmBackend>(
    state: &AppState<B>,
    req: VerifyHttpRequest,
    response: VerifyHttpResponse,
)
    requires
        verifies(state, req, Ok(response)),
    ensures
        exists|a: Algorithm, payload: Seq<u8>, signature: Seq<u8>|
            {
                &&& payload_bytes(req.payload@) == Ok::<Seq<u8>, Seq<char>>(payload)
                &&& payload_bytes(req.signature@) == Ok::<Seq<u8>, Seq<char>>(signature)
                &&& text::uppercase(req.algorithm@) == config::algorithm_name(a)
                &&& #[trigger] state.hsm.may_verify(
                    req.key_id@,
                    a,
                    payload,
                    signature,
                    req.prehashed,
                    Ok(response.valid),
                )
            },
        response.key_id@ == req.key_id@,
        response.valid ==> response.message@ == "Signature is valid"@,
        !response.valid ==> response.message@ == "Signature is invalid"@,
{
    let reply: Result<VerifyHttpResponse, ErrorReply> = Ok(response);
    let (a, payload, signature) = verify_question(req)->Ok_0;
    algorithms_are_named_in_upper_case(req.algorithm@, a);
    assert(verifies_with(state, req, a, payload, signature, reply));
    let answer = choose|answer: Result<bool, HsmErrorView>| #[trigger]
        state.hsm.may_verify(req.key_id@, a, payload, signature, req.prehashed, answer)
            && tells_validity(req.key_id@, answer, reply);
    assert(answer == Ok::<bool, HsmErrorView>(response.valid));
}

/// A request to verify that can be read is put to the backend, and what the backend cannot do is told;
/// one that cannot be read is answered 400.
pub proof fn readable_questions_reach_the_backend<B: HsmBackend>(
    state: &AppState<B>,
    req: VerifyHttpRequest,
    reply: Result<VerifyHttpResponse, ErrorReply>,
    a: Algorithm,
    payload: Seq<u8>,
    signature: Seq<u8>,
)
    requires
        verifies(state, req, reply),
    ensures
        payload_bytes(req.payload@) == Ok::<Seq<u8>, Seq<char>>(payload) && payload_bytes(
            req.signature@,
        ) == Ok::<Seq<u8>, Seq<char>>(signature) && text::uppercase(req.algorithm@)
            == config::algorithm_name(a) ==> exists|answer: Result<bool, HsmErrorView>|
            #[trigger] state.hsm.may_verify(
                req.key_id@,
                a,
                payload,
                signature,
                req.prehashed,
                answer,
            ) && match answer {
                Ok(valid) => reply matches Ok(response) && response.valid == valid,
                Err(e) => reply matches Err(r) && r@ == backend_reply(e),
            },
        payload_bytes(req.payload@) is Err || payload_bytes(req.signature@) is Err || (forall|
            b: Algorithm,
        |
            text::uppercase(req.algorithm@) != #[trigger] config::algorithm_name(b)) ==> (
        reply matches Err(r) && r@.status == 400),
{
    algorithms_are_named_in_upper_case(req.algorithm@, a);
    if let Ok((b, p, s)) = verify_question(req) {
        algorithms_are_named_in_upper_case(req.algorithm@, b);
        assert(verifies_with(state, req, b, p, s, reply));
        let answer = choose|answer: Result<bool, HsmErrorView>| #[trigger]
            state.hsm.may_verify(req.key_id@, b, p, s, req.prehashed, answer) && tells_validity(
                req.key_id@,
                answer,
                reply,
            );
        assert(state.hsm.may_verify(req.key_id@, b, p, s, req.prehashed, answer));
    }
}

/// What is told of the keys, of a public key, and of how many keys there are, is what the backend said.
pub proof fn lists_and_keys_are_the_backends(
    keys: Seq<KeyInfoView>,
    e: HsmErrorView,
    public: PublicKeyView,
    list: Result<Vec<KeyInfo>, ErrorReply>,
    key: Result<PublicKey, ErrorReply>,
)
    ensures
        tells_keys(Ok(keys), list) <==> (list matches Ok(told) && told.deep_view() == keys),
        tells_keys(Err(e), list) <==> (list matches Err(r) && r@ == backend_reply(e)),
        tells_public_key(Ok(public), key) <==> (key matches Ok(told) && told@ == public),
        tells_public_key(Err(e), key) <==> (key matches Err(r) && r@ == backend_reply(e)),
        keys_listed(Ok(keys)) == keys.len(),
        keys_listed(Err(e)) == 0,
{
}

/// A request that names no key is put to the backend with the first key that it lists, where the caller
/// may use that one and the rest is in order.
pub proof fn requests_without_a_key_reach_the_backend<B: HsmBackend>(
    state: &AppState<B>,
    peer: IpAddr,
    authorization: Option<Seq<char>>,
    forwarded_for: Option<Seq<char>>,
    req: SignHttpRequest,
    reply: SignReply,
)
    requires
        signs(state, peer, authorization, forwarded_for, req, reply),
        auth::caller_ok(state.config.auth@, req.caller_id@, auth::bearer(authorization)),
        auth::ip_ok(
            state.config.auth@,
            req.caller_id@,
            net::client_ip(state.config.trusted_proxies.deep_view(), peer, forwarded_for),
        ),
        req.key_id@.len() == 0,
        payload_bytes(req.payload@) is Ok,
        forall|listed: Result<Seq<KeyInfoView>, HsmErrorView>| #[trigger]
            state.hsm.may_list(listed) ==> (listed matches Ok(keys) && keys.len() > 0
                && auth::key_ok(state.config.auth@, req.caller_id@, keys[0].id)),
        req.algorithm matches Some(name) ==> exists|a: Algorithm|
            text::uppercase(name@) == #[trigger] config::algorithm_name(a),
    ensures
        !(reply is Refused),
{
    let payload = payload_bytes(req.payload@)->Ok_0;
    assert(signs_listed(state, req, payload, reply));
    let listed = choose|listed: Result<Seq<KeyInfoView>, HsmErrorView>| #[trigger]
        state.hsm.may_list(listed) && signs_chosen(state, req, payload, listed, reply);
    let keys = listed->Ok_0;
    if let Some(name) = req.algorithm {
        let a = choose|a: Algorithm|
            text::uppercase(name@) == #[trigger] config::algorithm_name(a);
        algorithms_are_named_in_upper_case(name@, a);
    } else {
        hsm::listed_algorithm_is_the_first(keys, keys[0].id, 0);
    }
    let (key, a) = chosen(state.config.auth@, req, listed)->Ok_0;
    assert(signs_with(state, req, key, a, payload, reply));
}

/// What a request to sign that was let in is told where it comes to nothing before the backend is asked
/// for a signature, given what the backend lists: 400 for a payload or an algorithm that cannot be read,
/// the backend's error where it cannot list its keys, 404 where there is no key or none with that id,
/// and 403 where the first key is not the caller's to use.
pub proof fn failed_choices_are_told<B: HsmBackend>(
    state: &AppState<B>,
    peer: IpAddr,
    authorization: Option<Seq<char>>,
    forwarded_for: Option<Seq<char>>,
    req: SignHttpRequest,
    reply: SignReply,
    listed: Result<Seq<KeyInfoView>, HsmErrorView>,
)
    requires
        signs(state, peer, authorization, forwarded_for, req, reply),
        auth::caller_ok(state.config.auth@, req.caller_id@, auth::bearer(authorization)),
        auth::ip_ok(state.config.auth@, req.caller_id@, state.client_ip(peer, forwarded_for)),
        req.key_id@.len() > 0 ==> auth::key_ok(state.config.auth@, req.caller_id@, req.key_id@),
        forall|other: Result<Seq<KeyInfoView>, HsmErrorView>| #[trigger]
            state.hsm.may_list(other) ==> other == listed,
    ensures
        payload_bytes(req.payload@) matches Err(fault) ==> (reply matches SignReply::Refused(r)
            && r@.status == 400 && r@.code == "INVALID_PAYLOAD"@ && r@.error
            == "Invalid payload (expected hex, base64, or base64url): "@ + fault),
        payload_bytes(req.payload@) is Ok ==> {
            &&& listed matches Err(e) ==> (reply matches SignReply::Refused(r) && r@
                == backend_reply(e))
            &&& listed matches Ok(keys) ==> {
                let key = if req.key_id@.len() > 0 {
                    req.key_id@
                } else {
                    keys[0].id
                };
                &&& req.key_id@.len() == 0 && keys.len() == 0 ==> (
                reply matches SignReply::Refused(r) && r@.status == 404 && r@.code
                    == "KEY_NOT_FOUND"@)
                &&& req.key_id@.len() == 0 && keys.len() > 0 && !auth::key_ok(
                    state.config.auth@,
                    req.caller_id@,
                    key,
                ) ==> (reply matches SignReply::Refused(r) && r@.status == 403 && r@.code
                    == "KEY_NOT_ALLOWED"@)
                &&& (req.key_id@.len() > 0 || keys.len() > 0) && auth::key_ok(
                    state.config.auth@,
                    req.caller_id@,
                    key,
                ) ==> {
                    &&& req.algorithm matches Some(name) ==> (forall|a: Algorithm|
                        text::uppercase(name@) != #[trigger] config::algorithm_name(a)) ==> (
                    reply matches SignReply::Refused(r) && r@.status == 400 && r@.code
                        == "INVALID_ALGORITHM"@ && r@.error == "Unknown algorithm: "@
                        + text::uppercase(name@))
                    &&& req.algorithm is None && hsm::listed_algorithm(keys, key) is None ==> (
                    reply matches SignReply::Refused(r) && r@.status == 404 && r@.code
                        == "KEY_NOT_FOUND"@ && r@.error == "Key not found: "@ + key)
                }
            }
        },
{
    if payload_bytes(req.payload@) is Ok {
        let payload = payload_bytes(req.payload@)->Ok_0;
        assert(signs_listed(state, req, payload, reply));
        let other = choose|other: Result<Seq<KeyInfoView>, HsmErrorView>| #[trigger]
            state.hsm.may_list(other) && signs_chosen(state, req, payload, other, reply);
        assert(other == listed);
        if let Some(name) = req.algorithm {
            if let Ok(a) = parsed_algorithm(name@) {
                algorithms_are_named_in_upper_case(name@, a);
            } else {
                algorithms_are_named_in_upper_case(name@, Algorithm::Rs256);
            }
        }
    }
}

/// What the backend answers to a request that reaches it is told: its signature, or its error.
pub proof fn backend_answers_are_told<B: HsmBackend>(
    state: &AppState<B>,
    peer: IpAddr,
    authorization: Option<Seq<char>>,
    forwarded_for: Option<Seq<char>>,
    req: SignHttpRequest,
    reply: SignReply,
)
    requires
        signs(state, peer, authorization, forwarded_for, req, reply),
        !(reply is Refused),
    ensures
        exists|key: Seq<char>, a: Algorithm, answer: Result<Seq<u8>, HsmErrorView>|
            #[trigger] state.hsm.may_sign(
                key,
                a,
                payload_bytes(req.payload@)->Ok_0,
                req.prehashed,
                answer,
            ) && match answer {
                Ok(sig) => reply matches SignReply::Signed(response) && response.signature_hex@
                    == encoding::hex_text(sig),
                Err(e) => reply matches SignReply::Failed(r) && r@ == backend_reply(e),
            } && (req.key_id@.len() > 0 ==> key == req.key_id@) && (req.algorithm matches Some(
                name,
            ) ==> text::uppercase(name@) == config::algorithm_name(a)),
{
    let payload = payload_bytes(req.payload@)->Ok_0;
    assert(signs_listed(state, req, payload, reply));
    let listed = choose|listed: Result<Seq<KeyInfoView>, HsmErrorView>| #[trigger]
        state.hsm.may_list(listed) && signs_chosen(state, req, payload, listed, reply);
    let (key, a) = chosen(state.config.auth@, req, listed)->Ok_0;
    assert(signs_with(state, req, key, a, payload, reply));
    let answer = choose|answer: Result<Seq<u8>, HsmErrorView>| #[trigger]
        state.hsm.may_sign(key, a, payload, req.prehashed, answer) && tells_signature(
            req,
            key,
            a,
            answer,
            reply,
        );
    if let Some(name) = req.algorithm {
        algorithms_are_named_in_upper_case(name@, a);
    }
    assert(state.hsm.may_sign(key, a, payload, req.prehashed, answer));
}

} // verus!
