use signing_gateway::config::{Algorithm, AlgorithmConfig, GatewayConfig, KeyConfig};
use signing_gateway::hsm::secret::SecretBytes;
use signing_gateway::hsm::software::{generate_key, LoadedKey, SoftwareHsm};
use signing_gateway::hsm::{HsmBackend, HsmError, HsmResult, KeyInfo, PublicKey, Signature};
use signing_gateway::http::handlers::{
    choose_key, handle_get_public_key, handle_health, handle_list_keys, handle_sign, handle_verify,
    health_response, list_reply, public_key_reply, sign_reply, verify_reply, ErrorReply, SignHttpRequest,
    SignReply, VerifyHttpRequest,
};
use signing_gateway::net::IpAddr;
use signing_gateway::state::{default_config, AppState};

/// A backend whose HSM is out of reach.
struct Down;

impl HsmBackend for Down {
    fn sign(&self, _: &str, _: Algorithm, _: &[u8], _: bool) -> HsmResult<Signature> {
        Err(HsmError::PoolExhausted)
    }

    fn verify(&self, _: &str, _: Algorithm, _: &[u8], _: &[u8], _: bool) -> HsmResult<bool> {
        Err(HsmError::BackendError("down".to_string()))
    }

    fn public_key(&self, _: &str) -> HsmResult<PublicKey> {
        Err(HsmError::ClusterError("down".to_string()))
    }

    fn list_keys(&self) -> HsmResult<Vec<KeyInfo>> {
        Err(HsmError::ClusterError("down".to_string()))
    }

    fn backend_name(&self) -> &'static str {
        "down"
    }
}

const PEER: IpAddr = IpAddr::V4(0x0a00_0105);

fn software() -> SoftwareHsm {
    let keys = [
        ("ec", AlgorithmConfig::Es256, generate_key(&Algorithm::Es256).unwrap()),
        ("mac", AlgorithmConfig::Hs256, b"Jefe".to_vec()),
    ];
    let mut loaded = Vec::new();
    for (id, algorithm, material) in keys {
        let config = KeyConfig {
            id: id.to_string(),
            description: id.to_string(),
            backend_ref: id.to_string(),
            algorithm,
            enabled: true,
        };
        loaded.push(LoadedKey { config, material: SecretBytes::new(material) });
    }
    SoftwareHsm::new(loaded)
}

fn open_state() -> AppState<SoftwareHsm> {
    AppState::new(default_config(), software())
}

fn locked() -> GatewayConfig {
    let mut cfg = default_config();
    cfg.auth.allow_all = false;
    cfg.auth.tokens.insert("tok-a".to_string(), "service-a".to_string());
    cfg.auth.tokens.insert("tok-b".to_string(), "service-b".to_string());
    cfg.auth.allowed_keys.insert("service-a".to_string(), vec!["mac".to_string()]);
    cfg.auth.allowed_ips.insert("service-a".to_string(), vec!["10.0.1.0/24".to_string()]);
    cfg
}

fn request(caller: &str, key: &str, algorithm: Option<&str>, payload: &str) -> SignHttpRequest {
    SignHttpRequest {
        caller_id: caller.to_string(),
        key_id: key.to_string(),
        algorithm: algorithm.map(|a| a.to_string()),
        payload: payload.to_string(),
        prehashed: false,
        request_id: Some("req-001".to_string()),
    }
}

fn refused(reply: SignReply) -> (u16, String, String) {
    match reply {
        SignReply::Refused(r) => told(r),
        _ => panic!("not refused"),
    }
}

fn told(r: ErrorReply) -> (u16, String, String) {
    (r.status, r.body.code, r.body.error)
}

#[test]
fn errors_have_a_status_and_a_code() {
    let cases = [
        (HsmError::KeyNotFound("k".to_string()), 404, "KEY_NOT_FOUND"),
        (HsmError::KeyDisabled("k".to_string()), 403, "KEY_DISABLED"),
        (
            HsmError::AlgorithmNotSupported { key_id: "k".to_string(), algorithm: "a".to_string() },
            400,
            "ALGO_NOT_SUPPORTED",
        ),
        (HsmError::SigningFailed("x".to_string()), 500, "SIGNING_FAILED"),
        (HsmError::VerificationFailed("x".to_string()), 400, "VERIFICATION_FAILED"),
        (HsmError::BackendError("x".to_string()), 503, "BACKEND_ERROR"),
        (HsmError::ClusterError("x".to_string()), 500, "INTERNAL_ERROR"),
        (HsmError::PoolExhausted, 500, "INTERNAL_ERROR"),
        (HsmError::Io("x".to_string()), 500, "INTERNAL_ERROR"),
        (HsmError::Config("x".to_string()), 500, "INTERNAL_ERROR"),
    ];
    for (error, status, code) in cases {
        let message = error.to_string();
        assert_eq!(told(error.into_response()), (status, code.to_string(), message));
    }
}

#[test]
fn payloads_are_signed() {
    let state = open_state();
    let reply = handle_sign(&state, PEER, None, None, request("x", "mac", None, "7768617420646f2079612077616e7420666f72206e6f7468696e673f"));
    match reply {
        SignReply::Signed(r) => {
            assert_eq!(r.signature_hex, "5bdcc146bf60754e6a042426089575c75a003f089d2739839dec58b964ec3843");
            assert_eq!(r.key_id, "mac");
            assert_eq!(r.algorithm, "HS256");
            assert_eq!(r.request_id, "req-001");
            assert!(r.signed_at.ends_with("+00:00"));
        }
        _ => panic!("not signed"),
    }
}

fn is_random_uuid(id: &str) -> bool {
    id.len() == 36
        && id.char_indices().all(|(i, c)| match i {
            8 | 13 | 18 | 23 => c == '-',
            14 => c == '4',
            19 => matches!(c, '8' | '9' | 'a' | 'b'),
            _ => matches!(c, '0'..='9' | 'a'..='f'),
        })
}

#[test]
fn requests_without_an_id_get_one() {
    let state = open_state();
    let mut req = request("x", "mac", None, "00");
    req.request_id = None;
    match handle_sign(&state, PEER, None, None, req) {
        SignReply::Signed(r) => {
            assert!(is_random_uuid(&r.request_id));
        }
        _ => panic!("not signed"),
    }
}

#[test]
fn signed_payloads_verify_over_http() {
    let state = open_state();
    let reply = handle_sign(&state, PEER, None, None, request("x", "ec", Some("es256"), "aGVsbG8="));
    let signed = match reply {
        SignReply::Signed(r) => r,
        _ => panic!("not signed"),
    };
    assert_eq!(signed.algorithm, "ES256");
    let question = |payload: &str| VerifyHttpRequest {
        key_id: signed.key_id.clone(),
        algorithm: signed.algorithm.clone(),
        payload: payload.to_string(),
        signature: signed.signature_hex.clone(),
        prehashed: false,
    };
    let verified = handle_verify(&state, question("68656c6c6f")).unwrap();
    assert!(verified.valid);
    assert_eq!(verified.key_id, "ec");
    assert_eq!(verified.message, "Signature is valid");
    let other = handle_verify(&state, question("00")).unwrap();
    assert!(!other.valid);
    assert_eq!(other.message, "Signature is invalid");
}

#[test]
fn digests_and_codes_verify_over_http() {
    let state = open_state();
    // The SHA-256 digest of "abc".
    let digest = "ba7816bf8f01cfea414140de5dae2223b00361a396177a9cb410ff61f20015ad";
    for (key, algorithm) in [("ec", "ES256"), ("mac", "HS256")] {
        let mut req = request("x", key, Some(algorithm), digest);
        req.prehashed = true;
        let signed = match handle_sign(&state, PEER, None, None, req) {
            SignReply::Signed(r) => r,
            _ => panic!("not signed"),
        };
        let question = |payload: &str, prehashed: bool| VerifyHttpRequest {
            key_id: key.to_string(),
            algorithm: algorithm.to_string(),
            payload: payload.to_string(),
            signature: signed.signature_hex.clone(),
            prehashed,
        };
        assert!(handle_verify(&state, question(digest, true)).unwrap().valid);
        assert!(handle_verify(&state, question(&digest.to_uppercase(), true)).unwrap().valid);
        assert!(!handle_verify(&state, question("616263", true)).unwrap().valid);
        // The digest's signature is one of the message under ECDSA; a code is of the bytes it is of.
        assert_eq!(handle_verify(&state, question("616263", false)).unwrap().valid, key == "ec");
    }
}

#[test]
fn first_key_signs_where_none_is_asked_for() {
    let state = open_state();
    match handle_sign(&state, PEER, None, None, request("x", "", None, "00")) {
        SignReply::Signed(r) => {
            assert_eq!(r.key_id, "ec");
            assert_eq!(r.algorithm, "ES256");
        }
        _ => panic!("not signed"),
    }
    let empty = AppState::new(default_config(), SoftwareHsm::new(vec![]));
    assert_eq!(
        refused(handle_sign(&empty, PEER, None, None, request("x", "", None, "00"))),
        (404, "KEY_NOT_FOUND".to_string(), "Key not found: no keys registered".to_string())
    );
}

#[test]
fn wrong_tokens_are_unauthorized() {
    let state = AppState::new(locked(), software());
    let expected = (401, "UNAUTHORIZED".to_string(), "Unauthorized".to_string());
    for header in [None, Some("Bearer tok-b"), Some("Bearer none"), Some("tok-a")] {
        let reply = handle_sign(&state, IpAddr::V4(0), header, None, request("service-a", "ec", None, "zz"));
        assert_eq!(refused(reply), expected);
    }
}

#[test]
fn wrong_addresses_are_forbidden() {
    let state = AppState::new(locked(), software());
    let reply = handle_sign(&state, IpAddr::V4(0x0a000205), Some("Bearer tok-a"), None, request("service-a", "ec", None, "zz"));
    assert_eq!(
        refused(reply),
        (
            403,
            "IP_NOT_ALLOWED".to_string(),
            "Source IP '10.0.2.5' is not permitted for caller 'service-a'".to_string()
        )
    );
    let reply = handle_sign(&state, IpAddr::V6(1), Some("Bearer tok-a"), None, request("service-a", "mac", None, "00"));
    assert_eq!(refused(reply).2, "Source IP '::1' is not permitted for caller 'service-a'");
}

#[test]
fn forwarded_addresses_are_checked_behind_a_proxy() {
    let mut cfg = locked();
    cfg.trusted_proxies = vec!["172.16.0.0/12".to_string()];
    let state = AppState::new(cfg, software());
    let proxy = IpAddr::V4(0xac100001);
    let ask = |peer: IpAddr, header: Option<&str>| {
        handle_sign(&state, peer, Some("Bearer tok-a"), header, request("service-a", "mac", None, "00"))
    };
    assert!(matches!(ask(proxy, Some("10.0.1.9, 172.16.0.1")), SignReply::Signed(_)));
    assert_eq!(refused(ask(proxy, Some("10.0.2.9"))).1, "IP_NOT_ALLOWED");
    assert_eq!(refused(ask(proxy, None)).1, "IP_NOT_ALLOWED");
    assert_eq!(refused(ask(IpAddr::V4(0x0a000205), Some("10.0.1.9"))).1, "IP_NOT_ALLOWED");
}

#[test]
fn wrong_keys_are_forbidden() {
    let state = AppState::new(locked(), software());
    let ask = |key: &str| {
        handle_sign(&state, PEER, Some("Bearer tok-a"), None, request("service-a", key, None, "00"))
    };
    let expected = (
        403,
        "KEY_NOT_ALLOWED".to_string(),
        "Key 'ec' is not permitted for caller 'service-a'".to_string(),
    );
    assert_eq!(refused(ask("ec")), expected);
    // The first key is no way around the allowlist.
    assert_eq!(refused(ask("")), expected);
    assert!(matches!(ask("mac"), SignReply::Signed(_)));
    let other = handle_sign(&state, PEER, Some("Bearer tok-b"), None, request("service-b", "ec", None, "00"));
    assert!(matches!(other, SignReply::Signed(_)));
}

#[test]
fn unreadable_requests_are_bad() {
    let state = open_state();
    assert_eq!(
        refused(handle_sign(&state, PEER, None, None, request("x", "mac", None, "!!"))),
        (
            400,
            "INVALID_PAYLOAD".to_string(),
            "Invalid payload (expected hex, base64, or base64url): Invalid symbol 33, offset 0.".to_string()
        )
    );
    assert_eq!(
        refused(handle_sign(&state, PEER, None, None, request("x", "mac", Some("rot13"), "00"))),
        (400, "INVALID_ALGORITHM".to_string(), "Unknown algorithm: ROT13".to_string())
    );
    assert_eq!(
        refused(handle_sign(&state, PEER, None, None, request("x", "nokey", None, "00"))),
        (404, "KEY_NOT_FOUND".to_string(), "Key not found: nokey".to_string())
    );
}

#[test]
fn backend_failures_are_told() {
    let state = open_state();
    match handle_sign(&state, PEER, None, None, request("x", "nokey", Some("HS256"), "00")) {
        SignReply::Failed(r) => assert_eq!(told(r), (404, "KEY_NOT_FOUND".to_string(), "Key not found: nokey".to_string())),
        _ => panic!("not failed"),
    }
    let down = AppState::new(default_config(), Down);
    assert_eq!(
        refused(handle_sign(&down, PEER, None, None, request("x", "k", Some("HS256"), "00"))),
        (500, "INTERNAL_ERROR".to_string(), "HSM cluster error: down".to_string())
    );
    assert_eq!(told(handle_list_keys(&down).unwrap_err()).0, 500);
    assert_eq!(told(handle_get_public_key(&down, "k").unwrap_err()).0, 500);
    let question = VerifyHttpRequest {
        key_id: "k".to_string(),
        algorithm: "RS256".to_string(),
        payload: "00".to_string(),
        signature: "00".to_string(),
        prehashed: false,
    };
    assert_eq!(told(handle_verify(&down, question).unwrap_err()), (503, "BACKEND_ERROR".to_string(), "Backend error: down".to_string()));
    assert_eq!(handle_health(&down).keys_loaded, 0);
}

#[test]
fn questions_are_read_in_order() {
    let state = open_state();
    let ask = |payload: &str, signature: &str, algorithm: &str| {
        let question = VerifyHttpRequest {
            key_id: "ec".to_string(),
            algorithm: algorithm.to_string(),
            payload: payload.to_string(),
            signature: signature.to_string(),
            prehashed: false,
        };
        told(handle_verify(&state, question).unwrap_err())
    };
    assert_eq!(ask("!!", "!!", "?").1, "INVALID_PAYLOAD");
    assert_eq!(
        ask("00", "!!", "?"),
        (400, "INVALID_SIGNATURE".to_string(), "Invalid signature: Invalid symbol 33, offset 0.".to_string())
    );
    assert_eq!(ask("00", "00", "?"), (400, "INVALID_ALGORITHM".to_string(), "Unknown algorithm: ?".to_string()));
    assert_eq!(ask("00", "00", "ES256").1, "VERIFICATION_FAILED");
}

#[test]
fn keys_are_listed_over_http() {
    let list = handle_list_keys(&open_state()).unwrap();
    assert_eq!(list.len(), 2);
    assert_eq!(list[0].id, "ec");
    assert_eq!(list[1].algorithm, Algorithm::Hs256);
}

#[test]
fn public_keys_are_given_over_http() {
    let state = open_state();
    let key = handle_get_public_key(&state, "ec").unwrap();
    assert_eq!(key.key_id, "ec");
    assert_eq!(key.key_type, "EC-P256");
    assert_eq!(key.algorithm, Algorithm::Es256);
    assert!(key.pem.starts_with("-----BEGIN PUBLIC KEY-----\n"));
    assert_eq!(told(handle_get_public_key(&state, "k").unwrap_err()).0, 404);
}

#[test]
fn health_over_http() {
    let health = handle_health(&open_state());
    assert_eq!(health.status, "serving");
    assert_eq!(health.hsm_backend, "software");
    assert_eq!(health.version, "0.1.0");
    assert!(health.uptime_seconds.parse::<u64>().unwrap() < 60);
    assert_eq!(health.keys_loaded, 2);
    let later = health_response("hsm-cluster", 3, 86400);
    assert_eq!(later.uptime_seconds, "86400");
    assert_eq!(later.hsm_backend, "hsm-cluster");
    assert_eq!(later.keys_loaded, 3);
}

#[test]
fn replies_follow_the_backend() {
    match sign_reply("k".to_string(), Algorithm::Ps512, Ok(Signature(vec![0x0f, 0xa0])), "then".to_string(), "id".to_string()) {
        SignReply::Signed(r) => {
            assert_eq!(r.signature_hex, "0fa0");
            assert_eq!(r.algorithm, "PS512");
            assert_eq!(r.signed_at, "then");
            assert_eq!(r.request_id, "id");
        }
        _ => panic!("not signed"),
    }
    let failed = sign_reply("k".to_string(), Algorithm::Ps512, Err(HsmError::PoolExhausted), String::new(), String::new());
    assert!(matches!(failed, SignReply::Failed(r) if r.status == 500 && r.body.error == "HSM session pool exhausted"));
    assert!(verify_reply("k".to_string(), Ok(true)).unwrap().valid);
    assert_eq!(verify_reply("k".to_string(), Err(HsmError::VerificationFailed("x".to_string()))).unwrap_err().status, 400);
    assert_eq!(list_reply(Ok(vec![])).unwrap().len(), 0);
    assert_eq!(public_key_reply(Err(HsmError::KeyDisabled("k".to_string()))).unwrap_err().body.code, "KEY_DISABLED");
}

#[test]
fn choice_of_key_and_algorithm() {
    let state = open_state();
    let listed = state.hsm.list_keys();
    let (key, algorithm) = choose_key(&state, &request("x", "mac", None, ""), listed).unwrap();
    assert_eq!((key.as_str(), algorithm), ("mac", Algorithm::Hs256));
    let (key, algorithm) = choose_key(&state, &request("x", "other", Some("PS256"), ""), Ok(vec![])).unwrap();
    assert_eq!((key.as_str(), algorithm), ("other", Algorithm::Ps256));
    let missing = choose_key(&state, &request("x", "other", None, ""), Ok(vec![])).unwrap_err();
    assert_eq!(told(missing), (404, "KEY_NOT_FOUND".to_string(), "Key not found: other".to_string()));
}
