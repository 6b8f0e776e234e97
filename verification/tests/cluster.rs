use signing_gateway::config::{Algorithm, AlgorithmConfig, HsmClusterConfig, KeyConfig};
use signing_gateway::hsm::cluster::{
    export_public_key_pem, failed_signing, failed_verification, find_private_key, find_public_key,
    frame_digest, input_for, login_as, may_pass, private_key_template, public_key_template, select_slot,
    sign_answer, signable, to_mechanism, to_mechanism_for, verify_answer, CallFault, Event, HashKind,
    HsmClusterBackend, KeyClass, Login, Mechanism, Next, ObjectKeyType, PssParams, Retry, SignReply,
    VerifyReply,
};
use signing_gateway::hsm::{compute_digest, HsmError, HsmResult};

fn config(retry_attempts: u32) -> HsmClusterConfig {
    HsmClusterConfig {
        library_path: "/usr/lib/softhsm/libsofthsm2.so".to_string(),
        slot_id: 7,
        pin: "0000".to_string(),
        pool_size: 8,
        retry_attempts,
        retry_delay_ms: 200,
        login_mode: "user".to_string(),
    }
}

fn cluster_key(id: &str, algorithm: AlgorithmConfig, enabled: bool) -> KeyConfig {
    KeyConfig {
        id: id.to_string(),
        description: format!("{} on the token", id),
        backend_ref: format!("label-{}", id),
        algorithm,
        enabled,
    }
}

fn backend() -> HsmClusterBackend {
    HsmClusterBackend::new(
        &config(3),
        &[
            cluster_key("ec", AlgorithmConfig::Es256, true),
            cluster_key("off", AlgorithmConfig::Rs256, false),
            cluster_key("rsa", AlgorithmConfig::Ps384, true),
        ],
    )
}

fn failure<T>(r: HsmResult<T>) -> String {
    match r {
        Ok(_) => panic!("no error"),
        Err(e) => e.to_string(),
    }
}

/// Runs the tries as the events go, and tells the result and the delays before the tries.
fn run(retry: Retry, events: Vec<Event<u64>>) -> (Option<HsmResult<u64>>, Vec<Option<u64>>) {
    let mut retry = retry;
    let mut delays = Vec::new();
    for event in events {
        delays.push(retry.delay());
        retry = match retry.after(event) {
            Next::Done(r) => return (Some(r), delays),
            Next::Exhausted(e) => return (Some(Err(e)), delays),
            Next::Again(retry) => retry,
        };
    }
    (None, delays)
}

fn transient(text: &str) -> Event<u64> {
    Event::Result(Err(HsmError::ClusterError(text.to_string())))
}

#[test]
fn mechanisms() {
    let pss = |hash: HashKind, salt_len: u64| Mechanism::RsaPkcsPss(hash, PssParams { hash, mgf: hash, salt_len });
    assert!(matches!(to_mechanism(Algorithm::Rs256), Ok(m) if m == Mechanism::RsaPkcs(HashKind::Sha256)));
    assert!(matches!(to_mechanism(Algorithm::Rs384), Ok(m) if m == Mechanism::RsaPkcs(HashKind::Sha384)));
    assert!(matches!(to_mechanism(Algorithm::Rs512), Ok(m) if m == Mechanism::RsaPkcs(HashKind::Sha512)));
    assert!(matches!(to_mechanism(Algorithm::Ps256), Ok(m) if m == pss(HashKind::Sha256, 32)));
    assert!(matches!(to_mechanism(Algorithm::Ps384), Ok(m) if m == pss(HashKind::Sha384, 48)));
    assert!(matches!(to_mechanism(Algorithm::Ps512), Ok(m) if m == pss(HashKind::Sha512, 64)));
    assert!(matches!(to_mechanism(Algorithm::Es256), Ok(Mechanism::Ecdsa)));
    assert!(matches!(to_mechanism(Algorithm::Es384), Ok(Mechanism::Ecdsa)));
    assert!(matches!(to_mechanism(Algorithm::Hs256), Ok(m) if m == Mechanism::Hmac(HashKind::Sha256)));
    assert!(matches!(to_mechanism(Algorithm::Hs384), Ok(m) if m == Mechanism::Hmac(HashKind::Sha384)));
    assert!(matches!(to_mechanism(Algorithm::Hs512), Ok(m) if m == Mechanism::Hmac(HashKind::Sha512)));
}

#[test]
fn mechanisms_for_digests() {
    let params = |hash, salt_len| PssParams { hash, mgf: hash, salt_len };
    for algorithm in [Algorithm::Rs256, Algorithm::Rs384, Algorithm::Rs512] {
        assert!(matches!(to_mechanism_for(algorithm, true), Ok(Mechanism::RsaPkcsRaw)));
    }
    assert!(matches!(to_mechanism_for(Algorithm::Ps256, true), Ok(m) if m == Mechanism::RsaPkcsPssRaw(params(HashKind::Sha256, 32))));
    assert!(matches!(to_mechanism_for(Algorithm::Ps384, true), Ok(m) if m == Mechanism::RsaPkcsPssRaw(params(HashKind::Sha384, 48))));
    assert!(matches!(to_mechanism_for(Algorithm::Ps512, true), Ok(m) if m == Mechanism::RsaPkcsPssRaw(params(HashKind::Sha512, 64))));
    for algorithm in [Algorithm::Es256, Algorithm::Es384, Algorithm::Hs256, Algorithm::Hs512] {
        assert_eq!(to_mechanism_for(algorithm, true).unwrap(), to_mechanism(algorithm).unwrap());
    }
    for algorithm in [Algorithm::Rs256, Algorithm::Ps512, Algorithm::Es256, Algorithm::Hs384] {
        assert_eq!(to_mechanism_for(algorithm, false).unwrap(), to_mechanism(algorithm).unwrap());
    }
}

#[test]
fn digests_are_framed() {
    // The frames of RFC 8017, 9.2, note 1.
    let hex = |bytes: Vec<u8>| -> String { bytes.iter().map(|b| format!("{:02x}", b)).collect() };
    assert_eq!(hex(frame_digest(HashKind::Sha256, &[0xaa])), "3031300d060960864801650304020105000420aa");
    assert_eq!(hex(frame_digest(HashKind::Sha384, &[0xbb])), "3041300d060960864801650304020205000430bb");
    assert_eq!(hex(frame_digest(HashKind::Sha512, &[0xcc])), "3051300d060960864801650304020305000440cc");
    for algorithm in [Algorithm::Rs256, Algorithm::Rs384, Algorithm::Rs512] {
        let digest = compute_digest(algorithm, b"x");
        let framed = input_for(algorithm, &digest, true);
        assert_eq!(framed.len(), digest.len() + 19);
        assert_eq!(framed[1] as usize + 2, framed.len());
        assert_eq!(framed[18] as usize, digest.len());
        assert_eq!(framed[19..], digest[..]);
    }
    assert_eq!(input_for(Algorithm::Ps384, b"digest", true), b"digest");
}

#[test]
fn rsa_digests_have_their_length() {
    assert!(signable(Algorithm::Rs256, &[0; 32], true));
    assert!(!signable(Algorithm::Rs256, &[0; 48], true));
    assert!(signable(Algorithm::Ps384, &[0; 48], true));
    assert!(!signable(Algorithm::Ps512, &[0; 63], true));
    assert!(signable(Algorithm::Rs512, &[0; 1], false));
    assert!(signable(Algorithm::Es256, &[0; 1], true));
    assert!(signable(Algorithm::Hs256, &[0; 1], true));
}

#[test]
fn faults_that_may_pass() {
    let text = || "x".to_string();
    for fault in [
        CallFault::FunctionFailed,
        CallFault::DeviceError,
        CallFault::DeviceMemory,
        CallFault::DeviceRemoved,
        CallFault::TokenNotPresent,
        CallFault::SessionClosed,
        CallFault::SessionHandleInvalid,
        CallFault::UserNotLoggedIn,
    ] {
        assert!(may_pass(fault));
        assert!(matches!(failed_signing(fault, text()), SignReply::Transient(e) if e == "x"));
        assert!(matches!(failed_verification(fault, text()), VerifyReply::Transient(e) if e == "x"));
    }
    for fault in [CallFault::Other, CallFault::SignatureInvalid] {
        assert!(!may_pass(fault));
        assert!(matches!(failed_signing(fault, text()), SignReply::Failed(e) if e == "x"));
    }
    assert!(matches!(failed_verification(CallFault::Other, text()), VerifyReply::Failed(e) if e == "x"));
    assert!(matches!(failed_verification(CallFault::SignatureInvalid, text()), VerifyReply::Invalid));
}

#[test]
fn failed_signatures_are_tried_again() {
    let retry = Retry::start(&config(1));
    let busy = failed_signing(CallFault::DeviceError, "busy".to_string());
    let retry = match retry.after(Event::Result(sign_answer(busy))) {
        Next::Again(retry) => retry,
        _ => panic!("not tried again"),
    };
    assert_eq!(retry.delay(), Some(200));
    let signed = SignReply::Signed(vec![7]);
    assert!(matches!(retry.after(Event::Result(sign_answer(signed))), Next::Done(Ok(s)) if s.0 == vec![7]));
    let refused = SignReply::Failed("no".to_string());
    assert!(matches!(
        Retry::start(&config(1)).after(Event::Result(sign_answer(refused))),
        Next::Done(Err(HsmError::SigningFailed(_)))
    ));
}

#[test]
fn login_modes() {
    assert_eq!(login_as("user"), Login::User);
    assert_eq!(login_as("so"), Login::SecurityOfficer);
    assert_eq!(login_as(""), Login::User);
}

#[test]
fn first_slot_with_the_id_is_taken() {
    assert_eq!(select_slot(&[1, 7, 7], 7), Ok(1));
    assert_eq!(
        select_slot(&[1, 2], 7),
        Err("Slot 7 not found. Available slots: run `pkcs11-tool --list-slots`".to_string())
    );
}

#[test]
fn objects_are_found_by_label_and_class() {
    let template = private_key_template("ké");
    assert_eq!(template.label, "ké".as_bytes());
    assert_eq!(template.class, KeyClass::Private);
    assert_eq!(public_key_template("k").class, KeyClass::Public);
    assert!(matches!(find_private_key(Ok(vec![5u64, 6]), "k"), Ok(5)));
    assert_eq!(failure(find_private_key::<u64>(Ok(vec![]), "k")), "Key not found: k");
    assert_eq!(failure(find_public_key::<u64>(Err("gone".to_string()), "k")), "HSM cluster error: gone");
    assert!(matches!(find_public_key(Ok(vec![9u64]), "k"), Ok(9)));
}

#[test]
fn public_keys_are_exported() {
    let (pem, kind) = export_public_key_pem(Ok(Some(ObjectKeyType::Rsa)), Ok(Some(vec![0, 1, 2]))).unwrap();
    assert_eq!(pem, "-----BEGIN PUBLIC KEY-----\nAAEC\n-----END PUBLIC KEY-----\n");
    assert_eq!(kind, "RSA");
    assert_eq!(export_public_key_pem(Ok(None), Ok(Some(vec![]))).unwrap().1, "EC");
    assert_eq!(export_public_key_pem(Ok(Some(ObjectKeyType::Ec)), Ok(Some(vec![]))).unwrap().1, "EC");
    assert_eq!(export_public_key_pem(Ok(Some(ObjectKeyType::Other)), Ok(Some(vec![]))).unwrap().1, "UNKNOWN");
    assert_eq!(
        failure(export_public_key_pem(Ok(None), Ok(None))),
        "HSM cluster error: No CKA_VALUE on public key"
    );
    assert_eq!(failure(export_public_key_pem(Err("a".to_string()), Ok(None))), "HSM cluster error: a");
    assert_eq!(failure(export_public_key_pem(Ok(None), Err("b".to_string()))), "HSM cluster error: b");
}

#[test]
fn transient_errors_are_tried_again() {
    let events = vec![transient("1"), transient("2"), Event::Result(Ok(42))];
    let (result, delays) = run(Retry::start(&config(3)), events);
    assert!(matches!(result, Some(Ok(42))));
    assert_eq!(delays, vec![None, Some(200), Some(200)]);
}

#[test]
fn tries_run_out() {
    let events = vec![transient("1"), transient("2"), transient("3"), transient("4"), Event::Result(Ok(1))];
    let (result, delays) = run(Retry::start(&config(3)), events);
    assert_eq!(failure(result.unwrap()), "HSM cluster error: 4");
    assert_eq!(delays.len(), 4);
    let (result, delays) = run(Retry::start(&config(0)), vec![transient("1")]);
    assert_eq!(failure(result.unwrap()), "HSM cluster error: 1");
    assert_eq!(delays, vec![None]);
}

#[test]
fn exhaustion_is_told_apart() {
    assert!(matches!(Retry::start(&config(0)).after(transient("x")), Next::Exhausted(HsmError::ClusterError(_))));
}

#[test]
fn lasting_errors_are_not_tried_again() {
    let lasting = Event::Result(Err(HsmError::KeyNotFound("k".to_string())));
    let (result, delays) = run(Retry::start(&config(3)), vec![transient("1"), lasting, Event::Result(Ok(1))]);
    assert_eq!(failure(result.unwrap()), "Key not found: k");
    assert_eq!(delays.len(), 2);
}

#[test]
fn want_of_a_session_ends_the_operation() {
    let (result, delays) = run(Retry::start(&config(3)), vec![Event::NoSession("timeout".to_string()), Event::Result(Ok(1))]);
    assert_eq!(failure(result.unwrap()), "HSM cluster error: Session pool exhausted: timeout");
    assert_eq!(delays.len(), 1);
}

#[test]
fn ecdsa_is_given_a_digest() {
    assert_eq!(input_for(Algorithm::Es256, b"x", false), compute_digest(Algorithm::Es256, b"x"));
    assert_eq!(input_for(Algorithm::Es384, b"x", true), b"x");
    assert_eq!(input_for(Algorithm::Rs256, b"x", false), b"x");
    assert_eq!(input_for(Algorithm::Hs256, b"x", true), b"x");
}

#[test]
fn cluster_operations_are_planned() {
    let hsm = backend();
    let op = hsm.plan_sign("ec", Algorithm::Es256, b"x", false).unwrap();
    assert_eq!(op.label, "label-ec");
    assert_eq!(op.mechanism, Mechanism::Ecdsa);
    assert_eq!(op.data, compute_digest(Algorithm::Es256, b"x"));
    let op = hsm.plan_verify("rsa", Algorithm::Rs256, b"x", false).unwrap();
    assert_eq!(op.label, "label-rsa");
    assert_eq!(op.mechanism, Mechanism::RsaPkcs(HashKind::Sha256));
    assert_eq!(op.data, b"x");
    let digest = compute_digest(Algorithm::Rs256, b"x");
    for op in [
        hsm.plan_sign("rsa", Algorithm::Rs256, &digest, true).unwrap(),
        hsm.plan_verify("rsa", Algorithm::Rs256, &digest, true).unwrap(),
    ] {
        assert_eq!(op.mechanism, Mechanism::RsaPkcsRaw);
        assert_eq!(op.data, frame_digest(HashKind::Sha256, &digest));
    }
    assert_eq!(
        failure(hsm.plan_sign("rsa", Algorithm::Rs256, b"x", true)),
        "Signing failed: input must be hashed"
    );
    assert_eq!(
        failure(hsm.plan_verify("rsa", Algorithm::Ps256, b"x", true)),
        "Verification failed: input must be hashed"
    );
    assert_eq!(failure(hsm.plan_sign("off", Algorithm::Rs256, b"x", false)), "Key not found: off");
    assert_eq!(failure(hsm.plan_verify("none", Algorithm::Rs256, b"x", false)), "Key not found: none");
    assert_eq!(failure(hsm.plan_public_key("none")), "Key not found: none");
    assert_eq!(hsm.plan_public_key("rsa").unwrap(), "label-rsa");
    assert_eq!(hsm.first_try().delay(), None);
}

#[test]
fn later_cluster_key_replaces_the_earlier_one() {
    let mut later = cluster_key("ec", AlgorithmConfig::Es384, true);
    later.backend_ref = "label-later".to_string();
    let mut off = cluster_key("ec", AlgorithmConfig::Rs256, false);
    off.backend_ref = "label-off".to_string();
    let hsm = HsmClusterBackend::new(
        &config(0),
        &[cluster_key("ec", AlgorithmConfig::Es256, true), cluster_key("b", AlgorithmConfig::Es256, true), later, off],
    );
    assert_eq!(hsm.plan_public_key("ec").unwrap(), "label-later");
    let list = hsm.list_keys().unwrap();
    assert_eq!(list.len(), 2);
    assert_eq!(list[0].algorithm, Algorithm::Es384);
}

#[test]
fn cluster_answers() {
    let hsm = backend();
    let public = hsm.public_key("rsa", ("PEM".to_string(), "RSA".to_string())).unwrap();
    assert_eq!(public.key_id, "rsa");
    assert_eq!(public.pem, "PEM");
    assert_eq!(public.algorithm, Algorithm::Ps384);
    assert_eq!(public.key_type, "RSA");
    assert_eq!(
        failure(hsm.public_key("none", (String::new(), String::new()))),
        "Key not found: none"
    );
    assert_eq!(sign_answer(SignReply::Signed(vec![1, 2])).unwrap().0, vec![1, 2]);
    assert_eq!(failure(sign_answer(SignReply::Transient("busy".to_string()))), "HSM cluster error: busy");
    assert_eq!(failure(sign_answer(SignReply::Failed("no".to_string()))), "Signing failed: no");
    assert!(matches!(verify_answer(VerifyReply::Valid), Ok(true)));
    assert!(matches!(verify_answer(VerifyReply::Invalid), Ok(false)));
    assert_eq!(failure(verify_answer(VerifyReply::Transient("busy".to_string()))), "HSM cluster error: busy");
    assert_eq!(failure(verify_answer(VerifyReply::Failed("no".to_string()))), "Verification failed: no");
    assert_eq!(hsm.backend_name(), "hsm-cluster");
}

#[test]
fn cluster_keys_are_listed() {
    let list = backend().list_keys().unwrap();
    assert_eq!(list.len(), 2);
    assert_eq!(list[0].id, "ec");
    assert_eq!(list[0].description, "ec on the token");
    assert_eq!(list[0].key_type, "HSM");
    assert_eq!(list[1].id, "rsa");
    assert_eq!(list[1].algorithm, Algorithm::Ps384);
    assert!(list[1].enabled);
}
