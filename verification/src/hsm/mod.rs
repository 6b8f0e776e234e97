//! What a signing backend offers, and what it answers with.

pub mod cluster;
pub mod crypto;
pub mod secret;
pub mod software;

use crate::config;
use crate::config::Algorithm;
use crate::text;
use crate::text::{join2, join3, same};
use secret::wipe;
use sha2::{Digest, Sha256, Sha384, Sha512};
use vstd::prelude::*;

verus! {

// ---- Errors ----

/// Why a backend could not do what it was asked for.
#[derive(Debug)]
pub enum HsmError {
    KeyNotFound(String),
    KeyDisabled(String),
    AlgorithmNotSupported { key_id: String, algorithm: String },
    SigningFailed(String),
    VerificationFailed(String),
    ClusterError(String),
    PoolExhausted,
    Io(String),
    Config(String),
    BackendError(String),
}

/// What an `HsmError` says.
#[verifier::ext_equal]
pub enum HsmErrorView {
    KeyNotFound(Seq<char>),
    KeyDisabled(Seq<char>),
    AlgorithmNotSupported { key_id: Seq<char>, algorithm: Seq<char> },
    SigningFailed(Seq<char>),
    VerificationFailed(Seq<char>),
    ClusterError(Seq<char>),
    PoolExhausted,
    Io(Seq<char>),
    Config(Seq<char>),
    BackendError(Seq<char>),
}

impl View for HsmError {
    type V = HsmErrorView;

    open spec fn view(&self) -> HsmErrorView {
        match self {
            HsmError::KeyNotFound(s) => HsmErrorView::KeyNotFound(s@),
            HsmError::KeyDisabled(s) => HsmErrorView::KeyDisabled(s@),
            HsmError::AlgorithmNotSupported { key_id, algorithm } =>
                HsmErrorView::AlgorithmNotSupported { key_id: key_id@, algorithm: algorithm@ },
            HsmError::SigningFailed(s) => HsmErrorView::SigningFailed(s@),
            HsmError::VerificationFailed(s) => HsmErrorView::VerificationFailed(s@),
            HsmError::ClusterError(s) => HsmErrorView::ClusterError(s@),
            HsmError::PoolExhausted => HsmErrorView::PoolExhausted,
            HsmError::Io(s) => HsmErrorView::Io(s@),
            HsmError::Config(s) => HsmErrorView::Config(s@),
            HsmError::BackendError(s) => HsmErrorView::BackendError(s@),
        }
    }
}

/// The message of an error.
pub open spec fn error_message(e: HsmErrorView) -> Seq<char> {
    match e {
        HsmErrorView::KeyNotFound(s) => "Key not found: "@ + s,
        HsmErrorView::KeyDisabled(s) => "Key disabled: "@ + s,
        HsmErrorView::AlgorithmNotSupported { key_id, algorithm } =>
            "Algorithm not supported for key '"@ + key_id + "': "@ + algorithm,
        HsmErrorView::SigningFailed(s) => "Signing failed: "@ + s,
        HsmErrorView::VerificationFailed(s) => "Verification failed: "@ + s,
        HsmErrorView::ClusterError(s) => "HSM cluster error: "@ + s,
        HsmErrorView::PoolExhausted => "HSM session pool exhausted"@,
        HsmErrorView::Io(s) => "IO error: "@ + s,
        HsmErrorView::Config(s) => "Config error: "@ + s,
        HsmErrorView::BackendError(s) => "Backend error: "@ + s,
    }
}

impl HsmError {
    /// The message of the error.
    pub fn to_string(&self) -> (s: String)
        ensures
            s@ == error_message(self@),
    {
        match self {
            HsmError::KeyNotFound(s) => join2("Key not found: ", s.as_str()),
            HsmError::KeyDisabled(s) => join2("Key disabled: ", s.as_str()),
            HsmError::AlgorithmNotSupported { key_id, algorithm } => join2(
                join3("Algorithm not supported for key '", key_id.as_str(), "': ").as_str(),
                algorithm.as_str(),
            ),
            HsmError::SigningFailed(s) => join2("Signing failed: ", s.as_str()),
            HsmError::VerificationFailed(s) => join2("Verification failed: ", s.as_str()),
            HsmError::ClusterError(s) => join2("HSM cluster error: ", s.as_str()),
            HsmError::PoolExhausted => "HSM session pool exhausted".to_owned(),
            HsmError::Io(s) => join2("IO error: ", s.as_str()),
            HsmError::Config(s) => join2("Config error: ", s.as_str()),
            HsmError::BackendError(s) => join2("Backend error: ", s.as_str()),
        }
    }
}

pub type HsmResult<T> = Result<T, HsmError>;

// ---- What backends hand out ----

/// The bytes of a signature, which are wiped when they are dropped.
#[derive(Debug, Clone)]
pub struct Signature(pub Vec<u8>);

impl View for Signature {
    type V = Seq<u8>;

    open spec fn view(&self) -> Seq<u8> {
        self.0@
    }
}

impl DeepView for Signature {
    type V = Seq<u8>;

    open spec fn deep_view(&self) -> Seq<u8> {
        self.0@
    }
}

impl Drop for Signature {
    fn drop(&mut self)
        opens_invariants none
        no_unwind
    {
        wipe(&mut self.0);
    }
}

/// A public key in PEM, with what is known of it.
#[derive(Debug, Clone)]
pub struct PublicKey {
    pub key_id: String,
    pub pem: String,
    pub algorithm: Algorithm,
    pub key_type: String,
}

/// What a `PublicKey` says.
#[verifier::ext_equal]
pub struct PublicKeyView {
    pub key_id: Seq<char>,
    pub pem: Seq<char>,
    pub algorithm: Algorithm,
    pub key_type: Seq<char>,
}

impl View for PublicKey {
    type V = PublicKeyView;

    open spec fn view(&self) -> PublicKeyView {
        PublicKeyView {
            key_id: self.key_id@,
            pem: self.pem@,
            algorithm: self.algorithm,
            key_type: self.key_type@,
        }
    }
}

impl DeepView for PublicKey {
    type V = PublicKeyView;

    open spec fn deep_view(&self) -> PublicKeyView {
        self@
    }
}

/// What callers may know of a key.
#[derive(Debug)]
pub struct KeyInfo {
    pub id: String,
    pub description: String,
    pub algorithm: Algorithm,
    pub enabled: bool,
    pub key_type: String,
}

/// What a `KeyInfo` says.
#[verifier::ext_equal]
pub struct KeyInfoView {
    pub id: Seq<char>,
    pub description: Seq<char>,
    pub algorithm: Algorithm,
    pub enabled: bool,
    pub key_type: Seq<char>,
}

impl View for KeyInfo {
    type V = KeyInfoView;

    open spec fn view(&self) -> KeyInfoView {
        KeyInfoView {
            id: self.id@,
            description: self.description@,
            algorithm: self.algorithm,
            enabled: self.enabled,
            key_type: self.key_type@,
        }
    }
}

impl DeepView for KeyInfo {
    type V = KeyInfoView;

    open spec fn deep_view(&self) -> KeyInfoView {
        self@
    }
}

impl Clone for KeyInfo {
    fn clone(&self) -> (r: Self)
        ensures
            r@ == self@,
    {
        KeyInfo {
            id: self.id.clone(),
            description: self.description.clone(),
            algorithm: self.algorithm,
            enabled: self.enabled,
            key_type: self.key_type.clone(),
        }
    }
}

/// What a backend's answer says.
pub open spec fn answer_view<T: DeepView>(r: HsmResult<T>) -> Result<T::V, HsmErrorView> {
    match r {
        Ok(v) => Ok(v.deep_view()),
        Err(e) => Err(e@),
    }
}

/// The algorithm of the first listed key with that id.
pub open spec fn listed_algorithm(keys: Seq<KeyInfoView>, id: Seq<char>) -> Option<Algorithm>
    decreases keys.len(),
{
    if keys.len() == 0 {
        None
    } else if keys[0].id == id {
        Some(keys[0].algorithm)
    } else {
        listed_algorithm(keys.drop_first(), id)
    }
}

/// The algorithm of the first listed key with that id.
pub fn algorithm_of(keys: &Vec<KeyInfo>, id: &str) -> (r: Option<Algorithm>)
    ensures
        r == listed_algorithm(keys.deep_view(), id@),
{
    let ghost all = keys.deep_view();
    let mut i: usize = 0;
    proof {
        assert(all.skip(0) =~= all);
    }
    while i < keys.len()
        invariant
            i <= keys.len(),
            all == keys.deep_view(),
            listed_algorithm(all.skip(i as int), id@) == listed_algorithm(all, id@),
        decreases keys.len() - i,
    {
        proof {
            assert(all.skip(i as int)[0] == keys@[i as int]@);
            assert(all.skip(i as int).drop_first() =~= all.skip(i + 1));
        }
        if same(keys[i].id.as_str(), id) {
            return Some(keys[i].algorithm);
        }
        i = i + 1;
    }
    None
}

// ---- Backends ----

/// A backend that holds keys. A backend may say which answers it gives; one that says nothing may
/// give any. The gateway relies on nothing else.
pub trait HsmBackend: Send + Sync {
    /// Is this the backend's name?
    open spec fn is_named(&self, name: Seq<char>) -> bool {
        true
    }

    /// May `answer` come back when the payload is to be signed?
    open spec fn may_sign(
        &self,
        key_id: Seq<char>,
        algorithm: Algorithm,
        payload: Seq<u8>,
        prehashed: bool,
        answer: Result<Seq<u8>, HsmErrorView>,
    ) -> bool {
        true
    }

    /// May `answer` come back when the signature is to be verified?
    open spec fn may_verify(
        &self,
        key_id: Seq<char>,
        algorithm: Algorithm,
        payload: Seq<u8>,
        signature: Seq<u8>,
        prehashed: bool,
        answer: Result<bool, HsmErrorView>,
    ) -> bool {
        true
    }

    /// May `answer` come back when the public key is asked for?
    open spec fn may_export(
        &self,
        key_id: Seq<char>,
        answer: Result<PublicKeyView, HsmErrorView>,
    ) -> bool {
        true
    }

    /// May `answer` come back when the keys are to be listed?
    open spec fn may_list(&self, answer: Result<Seq<KeyInfoView>, HsmErrorView>) -> bool {
        true
    }

    /// Signs the payload.
    fn sign(&self, key_id: &str, algorithm: Algorithm, payload: &[u8], prehashed: bool) -> (r:
        HsmResult<Signature>)
        ensures
            self.may_sign(key_id@, algorithm, payload@, prehashed, answer_view(r)),
    ;

    /// Is it a signature of the payload?
    fn verify(
        &self,
        key_id: &str,
        algorithm: Algorithm,
        payload: &[u8],
        signature: &[u8],
        prehashed: bool,
    ) -> (r: HsmResult<bool>)
        ensures
            self.may_verify(
                key_id@,
                algorithm,
                payload@,
                signature@,
                prehashed,
                answer_view(r),
            ),
    ;

    /// The public key.
    fn public_key(&self, key_id: &str) -> (r: HsmResult<PublicKey>)
        ensures
            self.may_export(key_id@, answer_view(r)),
    ;

    /// All keys.
    fn list_keys(&self) -> (r: HsmResult<Vec<KeyInfo>>)
        ensures
            self.may_list(answer_view(r)),
    ;

    /// The backend's name.
    fn backend_name(&self) -> (r: &'static str)
        ensures
            self.is_named(r@),
    ;
}

// ---- Digests ----

/// What `sha2::Sha256` computes.
pub uninterp spec fn sha256(data: Seq<u8>) -> Seq<u8>;

/// What `sha2::Sha384` computes.
pub uninterp spec fn sha384(data: Seq<u8>) -> Seq<u8>;

/// What `sha2::Sha512` computes.
pub uninterp spec fn sha512(data: Seq<u8>) -> Seq<u8>;

/// The SHA-256 digest (`Sha256::digest`), which has 32 bytes.
#[verifier::external_body]
fn sha256_digest(data: &[u8]) -> (r: Vec<u8>)
    ensures
        r@ == sha256(data@),
        r@.len() == 32,
{
    Sha256::digest(data).to_vec()
}

/// The SHA-384 digest (`Sha384::digest`), which has 48 bytes.
#[verifier::external_body]
fn sha384_digest(data: &[u8]) -> (r: Vec<u8>)
    ensures
        r@ == sha384(data@),
        r@.len() == 48,
{
    Sha384::digest(data).to_vec()
}

/// The SHA-512 digest (`Sha512::digest`), which has 64 bytes.
#[verifier::external_body]
fn sha512_digest(data: &[u8]) -> (r: Vec<u8>)
    ensures
        r@ == sha512(data@),
        r@.len() == 64,
{
    Sha512::digest(data).to_vec()
}

/// The digest that an algorithm signs.
pub open spec fn digest(algorithm: Algorithm, payload: Seq<u8>) -> Seq<u8> {
    match algorithm {
        Algorithm::Rs256 | Algorithm::Ps256 | Algorithm::Es256 | Algorithm::Hs256 => sha256(payload),
        Algorithm::Rs384 | Algorithm::Ps384 | Algorithm::Es384 | Algorithm::Hs384 => sha384(payload),
        Algorithm::Rs512 | Algorithm::Ps512 | Algorithm::Hs512 => sha512(payload),
    }
}

/// How many bytes the digest of an algorithm has.
pub open spec fn digest_len(algorithm: Algorithm) -> nat {
    match algorithm {
        Algorithm::Rs256 | Algorithm::Ps256 | Algorithm::Es256 | Algorithm::Hs256 => 32,
        Algorithm::Rs384 | Algorithm::Ps384 | Algorithm::Es384 | Algorithm::Hs384 => 48,
        Algorithm::Rs512 | Algorithm::Ps512 | Algorithm::Hs512 => 64,
    }
}

/// The digest of the payload under the algorithm's hash function.
pub fn compute_digest(algorithm: Algorithm, payload: &[u8]) -> (r: Vec<u8>)
    ensures
        r@ == digest(algorithm, payload@),
        r@.len() == digest_len(algorithm),
{
    match algorithm {
        Algorithm::Rs256 | Algorithm::Ps256 | Algorithm::Es256 | Algorithm::Hs256 => sha256_digest(
            payload,
        ),
        Algorithm::Rs384 | Algorithm::Ps384 | Algorithm::Es384 | Algorithm::Hs384 => sha384_digest(
            payload,
        ),
        Algorithm::Rs512 | Algorithm::Ps512 | Algorithm::Hs512 => sha512_digest(payload),
    }
}

// ---- What holds of digests, lists and errors ----

/// The digits in an algorithm's name say how many bits its digests have, and which SHA function makes
/// them.
pub proof fn names_tell_the_digest(a: Algorithm, payload: Seq<u8>)
    ensures
        config::algorithm_name(a).skip(2) == text::decimal(8 * digest_len(a)),
        digest_len(a) == 32 ==> digest(a, payload) == sha256(payload),
        digest_len(a) == 48 ==> digest(a, payload) == sha384(payload),
        digest_len(a) == 64 ==> digest(a, payload) == sha512(payload),
        digest_len(a) == 32 || digest_len(a) == 48 || digest_len(a) == 64,
{
    reveal_strlit("RS256");
    reveal_strlit("RS384");
    reveal_strlit("RS512");
    reveal_strlit("PS256");
    reveal_strlit("PS384");
    reveal_strlit("PS512");
    reveal_strlit("ES256");
    reveal_strlit("ES384");
    reveal_strlit("HS256");
    reveal_strlit("HS384");
    reveal_strlit("HS512");
    reveal_with_fuel(text::decimal, 3);
    assert(config::algorithm_name(a).skip(2) =~= text::decimal(8 * digest_len(a)));
}

/// The algorithm that is listed for a key is that of the first entry with its id; there is none
/// exactly if no entry has the id.
pub proof fn listed_algorithm_is_the_first(keys: Seq<KeyInfoView>, id: Seq<char>, i: int)
    requires
        0 <= i < keys.len(),
        keys[i].id == id,
        forall|j: int| 0 <= j < i ==> (#[trigger] keys[j]).id != id,
    ensures
        listed_algorithm(keys, id) == Some(keys[i].algorithm),
    decreases keys.len(),
{
    if keys[0].id != id {
        let rest = keys.drop_first();
        assert(rest[i - 1] == keys[i]);
        assert forall|j: int| 0 <= j < i - 1 implies (#[trigger] rest[j]).id != id by {
            assert(rest[j] == keys[j + 1]);
        }
        listed_algorithm_is_the_first(rest, id, i - 1);
    }
}

/// Of a key that is not listed no algorithm is known.
pub proof fn unlisted_keys_have_no_algorithm(keys: Seq<KeyInfoView>, id: Seq<char>)
    ensures
        listed_algorithm(keys, id) is Some <==> exists|i: int|
            0 <= i < keys.len() && (#[trigger] keys[i]).id == id,
    decreases keys.len(),
{
    if keys.len() > 0 {
        let rest = keys.drop_first();
        unlisted_keys_have_no_algorithm(rest, id);
        if keys[0].id == id {
            assert(keys[0].id == id);
        } else {
            if exists|i: int| 0 <= i < keys.len() && (#[trigger] keys[i]).id == id {
                let i = choose|i: int| 0 <= i < keys.len() && (#[trigger] keys[i]).id == id;
                assert(rest[i - 1] == keys[i]);
            }
            if exists|i: int| 0 <= i < rest.len() && (#[trigger] rest[i]).id == id {
                let i = choose|i: int| 0 <= i < rest.len() && (#[trigger] rest[i]).id == id;
                assert(keys[i + 1] == rest[i]);
            }
        }
    }
}

/// The message of an error begins with what went wrong, and ends with what it was about.
pub proof fn error_messages_end_with_their_subject(s: Seq<char>, key: Seq<char>)
    ensures
        error_message(HsmErrorView::KeyNotFound(s)) == "Key not found: "@ + s,
        error_message(HsmErrorView::KeyDisabled(s)) == "Key disabled: "@ + s,
        error_message(HsmErrorView::SigningFailed(s)) == "Signing failed: "@ + s,
        error_message(HsmErrorView::VerificationFailed(s)) == "Verification failed: "@ + s,
        error_message(HsmErrorView::ClusterError(s)) == "HSM cluster error: "@ + s,
        error_message(HsmErrorView::Io(s)) == "IO error: "@ + s,
        error_message(HsmErrorView::Config(s)) == "Config error: "@ + s,
        error_message(HsmErrorView::BackendError(s)) == "Backend error: "@ + s,
        error_message(HsmErrorView::AlgorithmNotSupported { key_id: key, algorithm: s })
            == "Algorithm not supported for key '"@ + key + "': "@ + s,
{
}

} // verus!
