use signing_gateway::config::{Algorithm, AlgorithmConfig, GatewayConfig, KeyConfig};
use signing_gateway::grpc::proto::{
    Code, GetPublicKeyRequest, HealthRequest, ListKeysRequest, SignRequest, Status, VerifyRequest,
};
use signing_gateway::grpc::service::{
    algorithm_to_proto, hsm_err_to_status, list_reply, own_algorithm, proto_to_algorithm,
    public_key_reply, sign_reply, verify_reply, SigningGatewayService,
};
use signing_gateway::hsm::secret::SecretBytes;
use signing_gateway::hsm::software::{generate_key, LoadedKey, SoftwareHsm};
use signing_gateway::hsm::{HsmError, KeyInfo, PublicKey, Signature};
use signing_gateway::net::IpAddr;
use signing_gateway::state::{default_config, AppState};
use std::sync::Arc;

const CLIENT: IpAddr = IpAddr::V4(0x0a00_0105);

fn service(cfg: GatewayConfig) -> SigningGatewayService<SoftwareHsm> {
    let keys = [
        ("ec", AlgorithmConfig::Es384, generate_key(&Algorithm::Es384).unwrap()),
        ("mac", AlgorithmConfig::Hs256, b"Jefe".to_vec()),
    ];
    let mut loaded = Vec::new();
    for (id, algorithm, material) in keys {
        let config = KeyConfig {
            id: id.to_string(),
            description: format!("the {} key", id),
            backend_ref: id.to_string(),
            algorithm,
            enabled: true,
        };
        loaded.push(LoadedKey { config, material: SecretBytes::new(material) });
    }
    SigningGatewayService::new(Arc::new(AppState::new(cfg, SoftwareHsm::new(loaded))))
}

fn guarded() -> GatewayConfig {
    let mut cfg = default_config();
    cfg.auth.allow_all = false;
    cfg.auth.tokens.insert("tok-a".to_string(), "service-a".to_string());
    cfg.auth.tokens.insert("tok-b".to_string(), "service-b".to_string());
    cfg.auth.allowed_keys.insert("service-a".to_string(), vec!["mac".to_string()]);
    cfg.auth.allowed_ips.insert("service-a".to_string(), vec!["10.0.1.0/24".to_string()]);
    cfg
}

fn ask(key: &str, algorithm: i32, payload: &[u8]) -> SignRequest {
    SignRequest {
        caller_id: "anyone".to_string(),
        key_id: key.to_string(),
        algorithm,
        payload: payload.to_vec(),
        prehashed: false,
        request_id: "req-9".to_string(),
    }
}

fn status(s: Status) -> (Code, String) {
    (s.code, s.message)
}

#[test]
fn algorithm_numbers() {
    assert_eq!(proto_to_algorithm(0), None);
    assert_eq!(proto_to_algorithm(12), None);
    assert_eq!(proto_to_algorithm(-1), None);
    assert_eq!(proto_to_algorithm(1), Some(Algorithm::Rs256));
    assert_eq!(proto_to_algorithm(8), Some(Algorithm::Es384));
    assert_eq!(proto_to_algorithm(11), Some(Algorithm::Hs512));
    for v in 1..12 {
        assert_eq!(algorithm_to_proto(proto_to_algorithm(v).unwrap()), v);
    }
}

#[test]
fn errors_have_a_grpc_code() {
    let cases = [
        (HsmError::KeyNotFound("k".to_string()), Code::NotFound),
        (HsmError::KeyDisabled("k".to_string()), Code::PermissionDenied),
        (
            HsmError::AlgorithmNotSupported { key_id: "k".to_string(), algorithm: "a".to_string() },
            Code::InvalidArgument,
        ),
        (HsmError::SigningFailed("x".to_string()), Code::Internal),
        (HsmError::VerificationFailed("x".to_string()), Code::InvalidArgument),
        (HsmError::BackendError("x".to_string()), Code::Unavailable),
        (HsmError::ClusterError("x".to_string()), Code::Unavailable),
        (HsmError::PoolExhausted, Code::Unavailable),
        (HsmError::Io("x".to_string()), Code::Unavailable),
        (HsmError::Config("x".to_string()), Code::Unavailable),
    ];
    for (error, code) in cases {
        let message = error.to_string();
        assert_eq!(status(hsm_err_to_status(error)), (code, message));
    }
}

#[test]
fn payloads_are_signed_over_grpc() {
    let s = service(default_config());
    let r = s.sign(CLIENT, None, None, ask("mac", 0, b"what do ya want for nothing?")).unwrap();
    assert_eq!(r.signature_hex, "5bdcc146bf60754e6a042426089575c75a003f089d2739839dec58b964ec3843");
    assert_eq!(r.key_id, "mac");
    assert_eq!(r.algorithm, 9);
    assert_eq!(r.request_id, "req-9");
    assert!(r.signed_at.ends_with("+00:00"));
    let mut nameless = ask("mac", 10, b"x");
    nameless.request_id = String::new();
    let r = s.sign(CLIENT, None, None, nameless).unwrap();
    assert_eq!(r.request_id.len(), 36);
    for (i, c) in r.request_id.char_indices() {
        match i {
            8 | 13 | 18 | 23 => assert_eq!(c, '-'),
            14 => assert_eq!(c, '4'),
            19 => assert!(matches!(c, '8' | '9' | 'a' | 'b')),
            _ => assert!(matches!(c, '0'..='9' | 'a'..='f')),
        }
    }
    assert_eq!(r.algorithm, 10);
    assert_eq!(r.signature_hex.len(), 96);
}

#[test]
fn signed_payloads_verify_over_grpc() {
    let s = service(default_config());
    let r = s.sign(CLIENT, None, None, ask("ec", 0, b"payload")).unwrap();
    assert_eq!(r.algorithm, 8);
    let signature: Vec<u8> =
        (0..r.signature_hex.len() / 2).map(|i| u8::from_str_radix(&r.signature_hex[2 * i..2 * i + 2], 16).unwrap()).collect();
    let question = |payload: &[u8]| VerifyRequest {
        key_id: "ec".to_string(),
        algorithm: r.algorithm,
        payload: payload.to_vec(),
        signature: signature.clone(),
        prehashed: false,
    };
    let verified = s.verify(question(b"payload")).unwrap();
    assert!(verified.valid);
    assert_eq!(verified.message, "valid");
    assert_eq!(verified.key_id, "ec");
    let other = s.verify(question(b"other")).unwrap();
    assert!(!other.valid);
    assert_eq!(other.message, "invalid");
}

#[test]
fn unknown_numbers_and_keys() {
    let s = service(default_config());
    assert_eq!(
        status(s.sign(CLIENT, None, None, ask("mac", 99, b"x")).unwrap_err()),
        (Code::InvalidArgument, "Unknown algorithm".to_string())
    );
    assert_eq!(
        status(s.sign(CLIENT, None, None, ask("nokey", 0, b"x")).unwrap_err()),
        (Code::NotFound, "Key not found: nokey".to_string())
    );
    assert_eq!(
        status(s.sign(CLIENT, None, None, ask("nokey", 9, b"x")).unwrap_err()),
        (Code::NotFound, "Key not found: nokey".to_string())
    );
    let question = VerifyRequest {
        key_id: "ec".to_string(),
        algorithm: 0,
        payload: vec![],
        signature: vec![],
        prehashed: false,
    };
    assert_eq!(status(s.verify(question).unwrap_err()), (Code::InvalidArgument, "Unknown algorithm".to_string()));
}

#[test]
fn wrong_tokens_are_unauthenticated() {
    let s = service(guarded());
    for header in [None, Some("Bearer none"), Some("tok-a")] {
        assert_eq!(
            status(s.sign(IpAddr::V4(0), header, None, ask("ec", 99, b"x")).unwrap_err()),
            (Code::Unauthenticated, "Invalid or missing Bearer token".to_string())
        );
    }
}

#[test]
fn wrong_addresses_and_keys_are_denied() {
    let s = service(guarded());
    assert_eq!(
        status(s.sign(IpAddr::V4(0x0a000205), Some("Bearer tok-a"), None, ask("ec", 99, b"x")).unwrap_err()),
        (Code::PermissionDenied, "Source IP '10.0.2.5' is not permitted for caller 'service-a'".to_string())
    );
    assert_eq!(
        status(s.sign(CLIENT, Some("Bearer tok-a"), None, ask("ec", 99, b"x")).unwrap_err()),
        (Code::PermissionDenied, "Key 'ec' is not permitted for caller 'service-a'".to_string())
    );
    assert!(s.sign(CLIENT, Some("Bearer tok-a"), None, ask("mac", 0, b"x")).is_ok());
    assert!(s.sign(IpAddr::V6(1), Some("Bearer tok-b"), None, ask("ec", 0, b"x")).is_ok());
}

#[test]
fn keys_are_listed_over_grpc() {
    let s = service(default_config());
    let list = s.list_keys(ListKeysRequest { caller_id: "x".to_string() }).unwrap().keys;
    assert_eq!(list.len(), 2);
    assert_eq!(list[0].key_id, "ec");
    assert_eq!(list[0].description, "the ec key");
    assert_eq!(list[0].default_algorithm, 8);
    assert_eq!(list[0].status, 1);
    assert_eq!(list[0].created_at, "");
    assert_eq!(list[0].key_type, "EC-P384");
    let disabled = KeyInfo {
        id: "k".to_string(),
        description: String::new(),
        algorithm: Algorithm::Rs256,
        enabled: false,
        key_type: "HSM".to_string(),
    };
    assert_eq!(list_reply(Ok(vec![disabled])).unwrap().keys[0].status, 2);
    assert_eq!(list_reply(Err(HsmError::PoolExhausted)).unwrap_err().code, Code::Unavailable);
}

#[test]
fn public_keys_are_given_over_grpc() {
    let s = service(default_config());
    let key = s.get_public_key(GetPublicKeyRequest { key_id: "ec".to_string() }).unwrap();
    assert_eq!(key.key_id, "ec");
    assert_eq!(key.algorithm, 8);
    assert_eq!(key.key_type, "EC-P384");
    assert!(key.public_key_pem.starts_with("-----BEGIN PUBLIC KEY-----\n"));
    assert_eq!(s.get_public_key(GetPublicKeyRequest { key_id: "k".to_string() }).unwrap_err().code, Code::NotFound);
}

#[test]
fn health_over_grpc() {
    let health = service(default_config()).clone().health(HealthRequest {}).unwrap();
    assert_eq!(health.status, 1);
    assert_eq!(health.hsm_backend, "software");
    assert_eq!(health.version, "0.1.0");
    assert!(health.uptime_seconds.parse::<u64>().unwrap() < 60);
    assert_eq!(health.keys_loaded, 2);
}

#[test]
fn grpc_replies_follow_the_backend() {
    let signed = sign_reply("k".to_string(), Algorithm::Rs256, Ok(Signature(vec![0xab])), "then".to_string(), "id".to_string()).unwrap();
    assert_eq!(signed.signature_hex, "ab");
    assert_eq!(signed.algorithm, 1);
    assert_eq!(signed.signed_at, "then");
    assert_eq!(signed.request_id, "id");
    let failed = sign_reply("k".to_string(), Algorithm::Rs256, Err(HsmError::SigningFailed("x".to_string())), String::new(), String::new());
    assert_eq!(status(failed.unwrap_err()), (Code::Internal, "Signing failed: x".to_string()));
    assert_eq!(verify_reply("k".to_string(), Ok(false)).unwrap().message, "invalid");
    assert_eq!(own_algorithm(Err(HsmError::PoolExhausted), "k").unwrap_err().code, Code::Unavailable);
    let key = PublicKey { key_id: "k".to_string(), pem: "P".to_string(), algorithm: Algorithm::Hs512, key_type: "T".to_string() };
    assert_eq!(public_key_reply(Ok(key)).unwrap().algorithm, 11);
}
