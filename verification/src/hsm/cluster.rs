//! The PKCS#11 cluster backend: what it asks of the HSM, and what it makes of the replies.
//!
//! Sessions, and the PKCS#11 calls on them, are the caller's. This module says which key object is
//! looked for, under which mechanism which bytes are signed, how often an operation is tried, and
//! what comes back.

use super::{
    HsmError, HsmErrorView, HsmResult, KeyInfo, KeyInfoView, PublicKey, PublicKeyView, Signature,
};
use crate::config;
use crate::config::{
    Algorithm, HsmClusterConfig, HsmClusterConfigView, KeyConfig, KeyConfigView,
};
use crate::encoding;
use crate::encoding::base64_encode;
use crate::hsm::compute_digest;
use crate::string_map;
use crate::string_map::StringMap;
use crate::text;
use crate::text::{decimal_text, join2, join3, same};
use vstd::prelude::*;
use vstd::string::*;
use vstd::utf8::*;

verus! {

// ---- Mechanisms ----

/// A hash function.
#[derive(Debug, Clone, Copy, PartialEq, Eq, Structural)]
pub enum HashKind {
    Sha256,
    Sha384,
    Sha512,
}

/// How many bytes the digests of a hash function have.
pub open spec fn hash_len(hash: HashKind) -> nat {
    match hash {
        HashKind::Sha256 => 32,
        HashKind::Sha384 => 48,
        HashKind::Sha512 => 64,
    }
}

/// The parameters of RSA-PSS.
#[derive(Debug, Clone, Copy, PartialEq, Eq, Structural)]
pub struct PssParams {
    pub hash: HashKind,
    /// The hash function of the mask generation function MGF1.
    pub mgf: HashKind,
    pub salt_len: u64,
}

/// A PKCS#11 signature mechanism.
#[derive(Debug, Clone, Copy, PartialEq, Eq, Structural)]
pub enum Mechanism {
    /// RSA PKCS#1 over the digest that the HSM makes.
    RsaPkcs(HashKind),
    /// RSA-PSS over the digest that the HSM makes.
    RsaPkcsPss(HashKind, PssParams),
    /// RSA PKCS#1 over a digest that is given, in the frame that names its hash function.
    RsaPkcsRaw,
    /// RSA-PSS over a digest that is given.
    RsaPkcsPssRaw(PssParams),
    /// ECDSA over a digest.
    Ecdsa,
    /// HMAC over the payload.
    Hmac(HashKind),
}

/// The PSS parameters that go with a hash function: the same function throughout, and a salt as
/// long as its digests.
pub open spec fn pss(hash: HashKind) -> Mechanism {
    Mechanism::RsaPkcsPss(hash, PssParams { hash, mgf: hash, salt_len: hash_len(hash) as u64 })
}

/// The mechanism of an algorithm.
pub open spec fn mechanism_of(algorithm: Algorithm) -> Mechanism {
    match algorithm {
        Algorithm::Rs256 => Mechanism::RsaPkcs(HashKind::Sha256),
        Algorithm::Rs384 => Mechanism::RsaPkcs(HashKind::Sha384),
        Algorithm::Rs512 => Mechanism::RsaPkcs(HashKind::Sha512),
        Algorithm::Ps256 => pss(HashKind::Sha256),
        Algorithm::Ps384 => pss(HashKind::Sha384),
        Algorithm::Ps512 => pss(HashKind::Sha512),
        Algorithm::Es256 | Algorithm::Es384 => Mechanism::Ecdsa,
        Algorithm::Hs256 => Mechanism::Hmac(HashKind::Sha256),
        Algorithm::Hs384 => Mechanism::Hmac(HashKind::Sha384),
        Algorithm::Hs512 => Mechanism::Hmac(HashKind::Sha512),
    }
}

/// The mechanism that the HSM is asked for.
pub fn to_mechanism(algorithm: Algorithm) -> (r: HsmResult<Mechanism>)
    ensures
        r matches Ok(m) && m == mechanism_of(algorithm),
{
    let m = match algorithm {
        Algorithm::Rs256 => Mechanism::RsaPkcs(HashKind::Sha256),
        Algorithm::Rs384 => Mechanism::RsaPkcs(HashKind::Sha384),
        Algorithm::Rs512 => Mechanism::RsaPkcs(HashKind::Sha512),
        Algorithm::Ps256 => Mechanism::RsaPkcsPss(
            HashKind::Sha256,
            PssParams { hash: HashKind::Sha256, mgf: HashKind::Sha256, salt_len: 32 },
        ),
        Algorithm::Ps384 => Mechanism::RsaPkcsPss(
            HashKind::Sha384,
            PssParams { hash: HashKind::Sha384, mgf: HashKind::Sha384, salt_len: 48 },
        ),
        Algorithm::Ps512 => Mechanism::RsaPkcsPss(
            HashKind::Sha512,
            PssParams { hash: HashKind::Sha512, mgf: HashKind::Sha512, salt_len: 64 },
        ),
        Algorithm::Es256 | Algorithm::Es384 => Mechanism::Ecdsa,
        Algorithm::Hs256 => Mechanism::Hmac(HashKind::Sha256),
        Algorithm::Hs384 => Mechanism::Hmac(HashKind::Sha384),
        Algorithm::Hs512 => Mechanism::Hmac(HashKind::Sha512),
    };
    Ok(m)
}

/// The hash function of an algorithm.
pub open spec fn hash_of(algorithm: Algorithm) -> HashKind {
    match algorithm {
        Algorithm::Rs256 | Algorithm::Ps256 | Algorithm::Es256 | Algorithm::Hs256 =>
            HashKind::Sha256,
        Algorithm::Rs384 | Algorithm::Ps384 | Algorithm::Es384 | Algorithm::Hs384 =>
            HashKind::Sha384,
        Algorithm::Rs512 | Algorithm::Ps512 | Algorithm::Hs512 => HashKind::Sha512,
    }
}

/// The mechanism of an algorithm for a payload, or for a digest where it is `prehashed`: an RSA
/// mechanism must not digest a digest once more.
pub open spec fn mechanism_for(algorithm: Algorithm, prehashed: bool) -> Mechanism {
    match mechanism_of(algorithm) {
        Mechanism::RsaPkcs(_) if prehashed => Mechanism::RsaPkcsRaw,
        Mechanism::RsaPkcsPss(_, params) if prehashed => Mechanism::RsaPkcsPssRaw(params),
        m => m,
    }
}

/// The mechanism that the HSM is asked for, for a payload or for a digest.
pub fn to_mechanism_for(algorithm: Algorithm, prehashed: bool) -> (r: HsmResult<Mechanism>)
    ensures
        r matches Ok(m) && m == mechanism_for(algorithm, prehashed),
{
    match to_mechanism(algorithm) {
        Ok(Mechanism::RsaPkcs(hash)) => if prehashed {
            Ok(Mechanism::RsaPkcsRaw)
        } else {
            Ok(Mechanism::RsaPkcs(hash))
        },
        Ok(Mechanism::RsaPkcsPss(hash, params)) => if prehashed {
            Ok(Mechanism::RsaPkcsPssRaw(params))
        } else {
            Ok(Mechanism::RsaPkcsPss(hash, params))
        },
        other => other,
    }
}

/// The digest that the mechanism makes is the algorithm's own, and so are the hash function and the
/// salt's length of PSS. A digest is digested by none but HMAC.
pub proof fn mechanism_fits_algorithm(algorithm: Algorithm, prehashed: bool)
    ensures
        hash_len(hash_of(algorithm)) == super::digest_len(algorithm),
        match mechanism_for(algorithm, prehashed) {
            Mechanism::RsaPkcs(hash) => !prehashed && algorithm.is_rsa() && hash == hash_of(
                algorithm,
            ),
            Mechanism::RsaPkcsPss(hash, params) => !prehashed && algorithm.is_rsa() && hash
                == hash_of(algorithm) && params.hash == hash && params.mgf == hash
                && params.salt_len == super::digest_len(algorithm),
            Mechanism::RsaPkcsRaw => prehashed && algorithm.is_rsa(),
            Mechanism::RsaPkcsPssRaw(params) => prehashed && algorithm.is_rsa() && params.hash
                == hash_of(algorithm) && params.mgf == hash_of(algorithm) && params.salt_len
                == super::digest_len(algorithm),
            Mechanism::Ecdsa => algorithm.is_ec(),
            Mechanism::Hmac(hash) => algorithm.is_hmac() && hash == hash_of(algorithm),
        },
{
}

/// The DER of a DigestInfo up to the digest: it names the hash function, and how long the digest is.
pub open spec fn digest_info_prefix(hash: HashKind) -> Seq<u8> {
    match hash {
        HashKind::Sha256 => seq![
            0x30, 0x31, 0x30, 0x0d, 0x06, 0x09, 0x60, 0x86, 0x48, 0x01, 0x65, 0x03, 0x04, 0x02,
            0x01, 0x05, 0x00, 0x04, 0x20,
        ],
        HashKind::Sha384 => seq![
            0x30, 0x41, 0x30, 0x0d, 0x06, 0x09, 0x60, 0x86, 0x48, 0x01, 0x65, 0x03, 0x04, 0x02,
            0x02, 0x05, 0x00, 0x04, 0x30,
        ],
        HashKind::Sha512 => seq![
            0x30, 0x51, 0x30, 0x0d, 0x06, 0x09, 0x60, 0x86, 0x48, 0x01, 0x65, 0x03, 0x04, 0x02,
            0x03, 0x05, 0x00, 0x04, 0x40,
        ],
    }
}

/// The digest in the frame that a PKCS#1 signature covers.
pub open spec fn digest_info(hash: HashKind, digest: Seq<u8>) -> Seq<u8> {
    digest_info_prefix(hash) + digest
}

/// The frame names the lengths that it has: of the digest in its last byte before it, and of the
/// whole in its second byte.
pub proof fn digest_info_is_framed(hash: HashKind, digest: Seq<u8>)
    requires
        digest.len() == hash_len(hash),
    ensures
        digest_info(hash, digest)[1] + 2 == digest_info(hash, digest).len(),
        digest_info(hash, digest)[18] == digest.len(),
        digest_info(hash, digest).skip(19) == digest,
{
    assert(digest_info(hash, digest).skip(19) =~= digest);
}

/// The digest in the frame that a PKCS#1 signature covers.
pub fn frame_digest(hash: HashKind, digest: &[u8]) -> (r: Vec<u8>)
    ensures
        r@ == digest_info(hash, digest@),
{
    let mut frame: Vec<u8> = match hash {
        HashKind::Sha256 => vec![
            0x30, 0x31, 0x30, 0x0d, 0x06, 0x09, 0x60, 0x86, 0x48, 0x01, 0x65, 0x03, 0x04, 0x02,
            0x01, 0x05, 0x00, 0x04, 0x20,
        ],
        HashKind::Sha384 => vec![
            0x30, 0x41, 0x30, 0x0d, 0x06, 0x09, 0x60, 0x86, 0x48, 0x01, 0x65, 0x03, 0x04, 0x02,
            0x02, 0x05, 0x00, 0x04, 0x30,
        ],
        HashKind::Sha512 => vec![
            0x30, 0x51, 0x30, 0x0d, 0x06, 0x09, 0x60, 0x86, 0x48, 0x01, 0x65, 0x03, 0x04, 0x02,
            0x03, 0x05, 0x00, 0x04, 0x40,
        ],
    };
    proof {
        assert(frame@ =~= digest_info_prefix(hash));
    }
    let mut rest: Vec<u8> = vstd::slice::slice_to_vec(digest);
    frame.append(&mut rest);
    frame
}

// ---- Logging in, and finding the slot ----

/// Who the gateway logs in as.
#[derive(Debug, Clone, Copy, PartialEq, Eq, Structural)]
pub enum Login {
    User,
    SecurityOfficer,
}

/// Who the gateway logs in as: the security officer in the mode "so", else the user.
pub fn login_as(mode: &str) -> (r: Login)
    ensures
        r == (if mode@ == "so"@ {
            Login::SecurityOfficer
        } else {
            Login::User
        }),
{
    if same(mode, "so") {
        Login::SecurityOfficer
    } else {
        Login::User
    }
}

/// Why no session can be opened on a slot.
pub open spec fn slot_missing(slot_id: u64) -> Seq<char> {
    "Slot "@ + text::decimal(slot_id as nat)
        + " not found. Available slots: run `pkcs11-tool --list-slots`"@
}

/// Which of the slots has that id: the first that does.
pub fn select_slot(slots: &[u64], slot_id: u64) -> (r: Result<usize, String>)
    ensures
        match r {
            Ok(i) => {
                &&& i < slots@.len()
                &&& slots@[i as int] == slot_id
                &&& forall|j: int| 0 <= j < i ==> slots@[j] != slot_id
            },
            Err(e) => {
                &&& forall|j: int| 0 <= j < slots@.len() ==> slots@[j] != slot_id
                &&& e@ == slot_missing(slot_id)
            },
        },
{
    let mut i: usize = 0;
    while i < slots.len()
        invariant
            i <= slots.len(),
            forall|j: int| 0 <= j < i ==> slots@[j] != slot_id,
        decreases slots.len() - i,
    {
        if slots[i] == slot_id {
            return Ok(i);
        }
        i = i + 1;
    }
    Err(
        join3(
            "Slot ",
            decimal_text(slot_id).as_str(),
            " not found. Available slots: run `pkcs11-tool --list-slots`",
        ),
    )
}

// ---- Objects on the token ----

/// A class of objects on the token.
#[derive(Debug, Clone, Copy, PartialEq, Eq, Structural)]
pub enum KeyClass {
    Private,
    Public,
}

/// What an object search asks for.
#[derive(Debug)]
pub struct KeyTemplate {
    pub label: Vec<u8>,
    pub class: KeyClass,
}

/// The search for the private key with that label.
pub fn private_key_template(label: &str) -> (r: KeyTemplate)
    ensures
        r.label@ == encode_utf8(label@),
        r.class == KeyClass::Private,
{
    KeyTemplate { label: label.as_bytes_vec(), class: KeyClass::Private }
}

/// The search for the public key with that label.
pub fn public_key_template(label: &str) -> (r: KeyTemplate)
    ensures
        r.label@ == encode_utf8(label@),
        r.class == KeyClass::Public,
{
    KeyTemplate { label: label.as_bytes_vec(), class: KeyClass::Public }
}

/// The answer to an object search: the first object found, no such key, or a cluster error.
pub open spec fn first_object<T>(found: Result<Vec<T>, String>, label: Seq<char>) -> Result<
    T,
    HsmErrorView,
> {
    match found {
        Ok(objects) => if objects@.len() > 0 {
            Ok(objects@[0])
        } else {
            Err(HsmErrorView::KeyNotFound(label))
        },
        Err(e) => Err(HsmErrorView::ClusterError(e@)),
    }
}

/// What an answer says, the value taken as it is.
pub open spec fn plain_answer<T>(r: HsmResult<T>) -> Result<T, HsmErrorView> {
    match r {
        Ok(v) => Ok(v),
        Err(e) => Err(e@),
    }
}

/// The private key with that label, given what the search for it found.
pub fn find_private_key<T>(found: Result<Vec<T>, String>, label: &str) -> (r: HsmResult<T>)
    ensures
        plain_answer(r) == first_object(found, label@),
{
    match found {
        Ok(mut objects) => if objects.len() > 0 {
            Ok(objects.remove(0))
        } else {
            Err(HsmError::KeyNotFound(label.to_owned()))
        },
        Err(e) => Err(HsmError::ClusterError(e)),
    }
}

/// The public key with that label, given what the search for it found.
pub fn find_public_key<T>(found: Result<Vec<T>, String>, label: &str) -> (r: HsmResult<T>)
    ensures
        plain_answer(r) == first_object(found, label@),
{
    find_private_key(found, label)
}

/// The type of a key object.
#[derive(Debug, Clone, Copy, PartialEq, Eq, Structural)]
pub enum ObjectKeyType {
    Rsa,
    Ec,
    Other,
}

/// The name of a key object's type. An object without a type counts as an elliptic-curve key.
pub open spec fn object_type_name(key_type: Option<ObjectKeyType>) -> Seq<char> {
    match key_type {
        Some(ObjectKeyType::Rsa) => "RSA"@,
        Some(ObjectKeyType::Ec) => "EC"@,
        Some(ObjectKeyType::Other) => "UNKNOWN"@,
        None => "EC"@,
    }
}

/// A public key's DER form in PEM, its base64 on one line.
pub open spec fn public_pem(der: Seq<u8>) -> Seq<char> {
    "-----BEGIN PUBLIC KEY-----\n"@ + encoding::base64_text(der) + "\n-----END PUBLIC KEY-----\n"@
}

/// The public key in PEM and the name of its type, given the attributes that were read of it.
pub open spec fn exported_object(
    key_type: Result<Option<ObjectKeyType>, String>,
    value: Result<Option<Vec<u8>>, String>,
) -> Result<(Seq<char>, Seq<char>), HsmErrorView> {
    match key_type {
        Err(e) => Err(HsmErrorView::ClusterError(e@)),
        Ok(key_type) => match value {
            Err(e) => Err(HsmErrorView::ClusterError(e@)),
            Ok(None) => Err(HsmErrorView::ClusterError("No CKA_VALUE on public key"@)),
            Ok(Some(der)) => Ok((public_pem(der@), object_type_name(key_type))),
        },
    }
}

/// The public key in PEM and the name of its type, given the attributes that were read of it:
/// CKA_KEY_TYPE, and then CKA_VALUE.
pub fn export_public_key_pem(
    key_type: Result<Option<ObjectKeyType>, String>,
    value: Result<Option<Vec<u8>>, String>,
) -> (r: HsmResult<(String, String)>)
    ensures
        super::answer_view(r) == exported_object(key_type, value),
{
    let key_type = match key_type {
        Ok(key_type) => key_type,
        Err(e) => return Err(HsmError::ClusterError(e)),
    };
    let der = match value {
        Ok(Some(der)) => der,
        Ok(None) => return Err(HsmError::ClusterError("No CKA_VALUE on public key".to_owned())),
        Err(e) => return Err(HsmError::ClusterError(e)),
    };
    let pem = join3(
        "-----BEGIN PUBLIC KEY-----\n",
        base64_encode(der.as_slice()).as_str(),
        "\n-----END PUBLIC KEY-----\n",
    );
    let name = match key_type {
        Some(ObjectKeyType::Rsa) => "RSA",
        Some(ObjectKeyType::Other) => "UNKNOWN",
        _ => "EC",
    };
    Ok((pem, name.to_owned()))
}

// ---- Trying again ----

/// What came of one try.
pub enum Event<T> {
    /// The pool had no session to give, for the reason that stands here.
    NoSession(String),
    /// The operation was carried out on a session, with this result.
    Result(HsmResult<T>),
}

/// What an `Event` says.
pub enum EventView<T> {
    NoSession(Seq<char>),
    Result(Result<T, HsmErrorView>),
}

impl<T> View for Event<T> {
    type V = EventView<T>;

    open spec fn view(&self) -> EventView<T> {
        match *self {
            Event::NoSession(e) => EventView::NoSession(e@),
            Event::Result(r) => EventView::Result(plain_answer(r)),
        }
    }
}

/// What is to be done after a try.
pub enum Next<T> {
    /// The operation is over.
    Done(HsmResult<T>),
    /// The operation is over: the last of the tries failed like those before it.
    Exhausted(HsmError),
    /// The operation is tried again.
    Again(Retry),
}

/// What a `Next` says.
pub enum NextView<T> {
    Done(Result<T, HsmErrorView>),
    Exhausted(HsmErrorView),
    Again(RetryView),
}

impl<T> View for Next<T> {
    type V = NextView<T>;

    open spec fn view(&self) -> NextView<T> {
        match *self {
            Next::Done(r) => NextView::Done(plain_answer(r)),
            Next::Exhausted(e) => NextView::Exhausted(e@),
            Next::Again(retry) => NextView::Again(retry@),
        }
    }
}

/// Where an operation stands that may be tried several times.
#[derive(Debug)]
pub struct Retry {
    attempt: u32,
    limit: u32,
    delay_ms: u64,
}

/// What a `Retry` says.
#[verifier::ext_equal]
pub struct RetryView {
    /// How many tries failed so far.
    pub attempt: nat,
    /// How many tries may follow the first.
    pub limit: nat,
    /// The delay before each try but the first, in milliseconds.
    pub delay_ms: u64,
}

impl View for Retry {
    type V = RetryView;

    closed spec fn view(&self) -> RetryView {
        RetryView {
            attempt: self.attempt as nat,
            limit: self.limit as nat,
            delay_ms: self.delay_ms,
        }
    }
}

/// What follows a try. A cluster error is transient: the operation is tried again while tries are
/// left. Every other result stands, and so does the want of a session.
pub open spec fn next_step<T>(retry: RetryView, event: EventView<T>) -> NextView<T> {
    match event {
        EventView::NoSession(e) => NextView::Done(
            Err(HsmErrorView::ClusterError("Session pool exhausted: "@ + e)),
        ),
        EventView::Result(Err(HsmErrorView::ClusterError(e))) => if retry.attempt < retry.limit {
            NextView::Again(RetryView { attempt: retry.attempt + 1, ..retry })
        } else {
            NextView::Exhausted(HsmErrorView::ClusterError(e))
        },
        EventView::Result(r) => NextView::Done(r),
    }
}

impl Retry {
    /// The first try.
    pub fn start(cfg: &HsmClusterConfig) -> (r: Self)
        ensures
            r@ == (RetryView {
                attempt: 0,
                limit: cfg@.retry_attempts as nat,
                delay_ms: cfg@.retry_delay_ms,
            }),
    {
        Retry { attempt: 0, limit: cfg.retry_attempts, delay_ms: cfg.retry_delay_ms }
    }

    /// How long to wait before this try, in milliseconds.
    pub fn delay(&self) -> (r: Option<u64>)
        ensures
            r == (if self@.attempt > 0 {
                Some(self@.delay_ms)
            } else {
                None
            }),
    {
        if self.attempt > 0 {
            Some(self.delay_ms)
        } else {
            None
        }
    }

    /// What follows this try.
    pub fn after<T>(self, event: Event<T>) -> (r: Next<T>)
        ensures
            r@ == next_step(self@, event@),
    {
        match event {
            Event::NoSession(e) => Next::Done(
                Err(HsmError::ClusterError(join2("Session pool exhausted: ", e.as_str()))),
            ),
            Event::Result(Ok(v)) => Next::Done(Ok(v)),
            Event::Result(Err(HsmError::ClusterError(e))) => if self.attempt < self.limit {
                Next::Again(
                    Retry {
                        attempt: self.attempt + 1,
                        limit: self.limit,
                        delay_ms: self.delay_ms,
                    },
                )
            } else {
                Next::Exhausted(HsmError::ClusterError(e))
            },
            Event::Result(Err(e)) => Next::Done(Err(e)),
        }
    }
}

/// The result of the operation when its tries go as `events` say; none while it is not over.
pub open spec fn outcome<T>(retry: RetryView, events: Seq<EventView<T>>) -> Option<
    Result<T, HsmErrorView>,
>
    decreases events.len(),
{
    if events.len() == 0 {
        None
    } else {
        match next_step(retry, events[0]) {
            NextView::Done(r) => Some(r),
            NextView::Exhausted(e) => Some(Err(e)),
            NextView::Again(again) => outcome(again, events.drop_first()),
        }
    }
}

/// A result that the operation is tried again for.
pub open spec fn is_transient<T>(event: EventView<T>) -> bool {
    event matches EventView::Result(Err(HsmErrorView::ClusterError(_)))
}

/// The operation is over after one try more than the retries that are left.
pub proof fn tries_are_bounded<T>(retry: RetryView, events: Seq<EventView<T>>)
    requires
        retry.attempt <= retry.limit,
        events.len() > retry.limit - retry.attempt,
    ensures
        outcome(retry, events) is Some,
    decreases events.len(),
{
    if let NextView::Again(again) = next_step(retry, events[0]) {
        tries_are_bounded(again, events.drop_first());
    }
}

/// Transient errors are passed over while tries are left, and the first other event decides.
pub proof fn first_lasting_event_decides<T>(retry: RetryView, events: Seq<EventView<T>>, n: int)
    requires
        0 <= n < events.len(),
        retry.attempt + n <= retry.limit,
        forall|i: int| 0 <= i < n ==> is_transient(#[trigger] events[i]),
        !is_transient(events[n]),
    ensures
        outcome(retry, events) == (match events[n] {
            EventView::Result(r) => Some(r),
            EventView::NoSession(e) => Some(
                Err(HsmErrorView::ClusterError("Session pool exhausted: "@ + e)),
            ),
        }),
    decreases n,
{
    if n > 0 {
        assert(is_transient(events[0]));
        let again = RetryView { attempt: retry.attempt + 1, ..retry };
        let rest = events.drop_first();
        assert forall|i: int| 0 <= i < n - 1 implies is_transient(#[trigger] rest[i]) by {
            assert(is_transient(events[i + 1]));
        }
        assert(rest[n - 1] == events[n]);
        first_lasting_event_decides(again, rest, n - 1);
    }
}

/// Where every try fails with a transient error, the error of the last try comes back.
pub proof fn last_transient_error_comes_back<T>(retry: RetryView, events: Seq<EventView<T>>)
    requires
        retry.attempt <= retry.limit,
        events.len() > retry.limit - retry.attempt,
        forall|i: int|
            0 <= i <= retry.limit - retry.attempt ==> is_transient(#[trigger] events[i]),
    ensures
        EventView::Result(outcome(retry, events)->0) == events[retry.limit - retry.attempt],
    decreases events.len(),
{
    assert(is_transient(events[0]));
    if retry.attempt < retry.limit {
        let again = RetryView { attempt: retry.attempt + 1, ..retry };
        let rest = events.drop_first();
        assert forall|i: int| 0 <= i <= again.limit - again.attempt implies is_transient(
            #[trigger] rest[i],
        ) by {
            assert(is_transient(events[i + 1]));
        }
        last_transient_error_comes_back(again, rest);
    }
}

// ---- The backend ----

/// A registered key.
struct KeyEntry {
    info: KeyInfo,
    /// The key's CKA_LABEL on the token.
    label: String,
}

/// What is registered of a key.
#[verifier::ext_equal]
pub struct KeyEntryView {
    pub info: KeyInfoView,
    pub label: Seq<char>,
}

impl DeepView for KeyEntry {
    type V = KeyEntryView;

    closed spec fn deep_view(&self) -> KeyEntryView {
        KeyEntryView { info: self.info@, label: self.label@ }
    }
}

/// What is registered of a configured key.
pub open spec fn entry_of(key: KeyConfigView) -> KeyEntryView {
    KeyEntryView {
        info: KeyInfoView {
            id: key.id,
            description: key.description,
            algorithm: config::configured(key.algorithm),
            enabled: key.enabled,
            key_type: "HSM"@,
        },
        label: key.backend_ref,
    }
}

/// The register of the configured keys. Disabled keys are left out; of two keys with the same id
/// the later one stays, in the place of the first.
pub open spec fn registered(keys: Seq<KeyConfigView>) -> Seq<(Seq<char>, KeyEntryView)>
    decreases keys.len(),
{
    if keys.len() == 0 {
        Seq::empty()
    } else {
        let before = registered(keys.drop_last());
        let last = keys.last();
        if last.enabled {
            string_map::upsert(before, last.id, entry_of(last))
        } else {
            before
        }
    }
}

/// The keys that are registered are enabled, each stands under its own id, and no id stands twice.
pub proof fn registered_keys_are_enabled(keys: Seq<KeyConfigView>)
    ensures
        string_map::keys_differ(registered(keys)),
        forall|i: int|
            0 <= i < registered(keys).len() ==> (#[trigger] registered(keys)[i]).1.info.enabled
                && registered(keys)[i].1.info.id == registered(keys)[i].0,
    decreases keys.len(),
{
    if keys.len() > 0 {
        let before = registered(keys.drop_last());
        let last = keys.last();
        let all = registered(keys);
        registered_keys_are_enabled(keys.drop_last());
        if last.enabled {
            string_map::lemma_upsert_keys_differ(before, last.id, entry_of(last));
            assert forall|i: int| 0 <= i < all.len() implies (#[trigger] all[i]).1.info.enabled
                && all[i].1.info.id == all[i].0 by {
                string_map::lemma_upsert_entry(before, last.id, entry_of(last), i);
                if all[i] != (last.id, entry_of(last)) {
                    let j = choose|j: int| 0 <= j < before.len() && before[j] == all[i];
                    assert(before[j].1.info.enabled);
                }
            }
        }
    }
}

/// The last enabled key that is configured with that id.
pub open spec fn last_configured(keys: Seq<KeyConfigView>, id: Seq<char>) -> Option<KeyConfigView>
    decreases keys.len(),
{
    if keys.len() == 0 {
        None
    } else if keys.last().enabled && keys.last().id == id {
        Some(keys.last())
    } else {
        last_configured(keys.drop_last(), id)
    }
}

/// Under an id stands the last enabled key that was configured with it, and none where no enabled key
/// was.
pub proof fn registered_under_id(keys: Seq<KeyConfigView>, id: Seq<char>)
    ensures
        string_map::lookup(registered(keys), id) == (match last_configured(keys, id) {
            Some(key) => Some(entry_of(key)),
            None => None,
        }),
    decreases keys.len(),
{
    if keys.len() > 0 {
        let last = keys.last();
        registered_under_id(keys.drop_last(), id);
        if last.enabled {
            string_map::lemma_upsert_lookup(
                registered(keys.drop_last()),
                last.id,
                entry_of(last),
                id,
            );
        }
    }
}

/// A signature or a verification, as the HSM is asked for it.
#[derive(Debug)]
pub struct Operation {
    /// The key's label on the token.
    pub label: String,
    pub mechanism: Mechanism,
    /// What the mechanism is applied to.
    pub data: Vec<u8>,
}

/// What an `Operation` says.
#[verifier::ext_equal]
pub struct OperationView {
    pub label: Seq<char>,
    pub mechanism: Mechanism,
    pub data: Seq<u8>,
}

impl View for Operation {
    type V = OperationView;

    open spec fn view(&self) -> OperationView {
        OperationView { label: self.label@, mechanism: self.mechanism, data: self.data@ }
    }
}

impl DeepView for Operation {
    type V = OperationView;

    open spec fn deep_view(&self) -> OperationView {
        self@
    }
}

/// What the mechanism is applied to. ECDSA takes a digest: the payload where it is one already,
/// else the payload's. RSA mechanisms for a digest take it as it is, or in a frame in PKCS#1. The
/// other mechanisms digest what they are given.
pub open spec fn mechanism_input(algorithm: Algorithm, payload: Seq<u8>, prehashed: bool) -> Seq<
    u8,
> {
    if algorithm.is_ec() && !prehashed {
        super::digest(algorithm, payload)
    } else if mechanism_for(algorithm, prehashed) is RsaPkcsRaw {
        digest_info(hash_of(algorithm), payload)
    } else {
        payload
    }
}

/// What the mechanism is applied to.
pub fn input_for(algorithm: Algorithm, payload: &[u8], prehashed: bool) -> (r: Vec<u8>)
    ensures
        r@ == mechanism_input(algorithm, payload@, prehashed),
{
    match algorithm {
        Algorithm::Es256 | Algorithm::Es384 => if prehashed {
            vstd::slice::slice_to_vec(payload)
        } else {
            compute_digest(algorithm, payload)
        },
        Algorithm::Rs256 => if prehashed {
            frame_digest(HashKind::Sha256, payload)
        } else {
            vstd::slice::slice_to_vec(payload)
        },
        Algorithm::Rs384 => if prehashed {
            frame_digest(HashKind::Sha384, payload)
        } else {
            vstd::slice::slice_to_vec(payload)
        },
        Algorithm::Rs512 => if prehashed {
            frame_digest(HashKind::Sha512, payload)
        } else {
            vstd::slice::slice_to_vec(payload)
        },
        _ => vstd::slice::slice_to_vec(payload),
    }
}

/// To sign a message's digest is to sign the message: ECDSA is applied to the same bytes, and PKCS#1
/// to the frame of the digest that the HSM would make.
pub proof fn digests_are_not_digested_again(algorithm: Algorithm, message: Seq<u8>)
    ensures
        algorithm.is_ec() ==> mechanism_input(
            algorithm,
            super::digest(algorithm, message),
            true,
        ) == mechanism_input(algorithm, message, false) && mechanism_for(algorithm, true)
            == mechanism_for(algorithm, false),
        mechanism_of(algorithm) matches Mechanism::RsaPkcs(hash) ==> mechanism_input(
            algorithm,
            super::digest(algorithm, message),
            true,
        ) == digest_info(hash, super::digest(algorithm, message)),
        mechanism_of(algorithm) is RsaPkcsPss ==> mechanism_input(
            algorithm,
            super::digest(algorithm, message),
            true,
        ) == super::digest(algorithm, message),
{
}

/// Is it a payload that the mechanism can be applied to? A digest for RSA has the length of the
/// algorithm's digests.
pub open spec fn is_signable(algorithm: Algorithm, payload: Seq<u8>, prehashed: bool) -> bool {
    prehashed && algorithm.is_rsa() ==> payload.len() == super::digest_len(algorithm)
}

/// Is it a payload that the mechanism can be applied to?
pub fn signable(algorithm: Algorithm, payload: &[u8], prehashed: bool) -> (r: bool)
    ensures
        r == is_signable(algorithm, payload@, prehashed),
{
    match algorithm {
        Algorithm::Rs256 | Algorithm::Ps256 => !prehashed || payload.len() == 32,
        Algorithm::Rs384 | Algorithm::Ps384 => !prehashed || payload.len() == 48,
        Algorithm::Rs512 | Algorithm::Ps512 => !prehashed || payload.len() == 64,
        _ => true,
    }
}

/// What the HSM is asked for.
pub open spec fn operation(
    entry: KeyEntryView,
    algorithm: Algorithm,
    payload: Seq<u8>,
    prehashed: bool,
) -> OperationView {
    OperationView {
        label: entry.label,
        mechanism: mechanism_for(algorithm, prehashed),
        data: mechanism_input(algorithm, payload, prehashed),
    }
}

/// What went wrong in a call to the HSM.
#[derive(Debug, Clone, Copy, PartialEq, Eq, Structural)]
pub enum CallFault {
    /// CKR_SIGNATURE_INVALID.
    SignatureInvalid,
    /// CKR_FUNCTION_FAILED.
    FunctionFailed,
    /// CKR_DEVICE_ERROR.
    DeviceError,
    /// CKR_DEVICE_MEMORY.
    DeviceMemory,
    /// CKR_DEVICE_REMOVED.
    DeviceRemoved,
    /// CKR_TOKEN_NOT_PRESENT.
    TokenNotPresent,
    /// CKR_SESSION_CLOSED.
    SessionClosed,
    /// CKR_SESSION_HANDLE_INVALID.
    SessionHandleInvalid,
    /// CKR_USER_NOT_LOGGED_IN.
    UserNotLoggedIn,
    /// Every other fault.
    Other,
}

/// A fault that another try, on another session or another member of the cluster, may not meet.
pub open spec fn passes(fault: CallFault) -> bool {
    !(fault is SignatureInvalid) && !(fault is Other)
}

/// May another try succeed where this fault came?
pub fn may_pass(fault: CallFault) -> (r: bool)
    ensures
        r == passes(fault),
{
    match fault {
        CallFault::SignatureInvalid | CallFault::Other => false,
        _ => true,
    }
}

/// What the HSM is asked for to sign a payload with the key of that id, given the register of keys; or
/// why it is asked for nothing.
pub open spec fn planned_signing(
    keys: Seq<(Seq<char>, KeyEntryView)>,
    key_id: Seq<char>,
    algorithm: Algorithm,
    payload: Seq<u8>,
    prehashed: bool,
) -> Result<OperationView, HsmErrorView> {
    match string_map::lookup(keys, key_id) {
        None => Err(HsmErrorView::KeyNotFound(key_id)),
        Some(entry) => if !entry.info.enabled {
            Err(HsmErrorView::KeyDisabled(key_id))
        } else if is_signable(algorithm, payload, prehashed) {
            Ok(operation(entry, algorithm, payload, prehashed))
        } else {
            Err(HsmErrorView::SigningFailed("input must be hashed"@))
        },
    }
}

/// What the HSM is asked for to verify a signature of a payload with the key of that id, given the
/// register of keys; or why it is asked for nothing.
pub open spec fn planned_verification(
    keys: Seq<(Seq<char>, KeyEntryView)>,
    key_id: Seq<char>,
    algorithm: Algorithm,
    payload: Seq<u8>,
    prehashed: bool,
) -> Result<OperationView, HsmErrorView> {
    match string_map::lookup(keys, key_id) {
        None => Err(HsmErrorView::KeyNotFound(key_id)),
        Some(entry) => if is_signable(algorithm, payload, prehashed) {
            Ok(operation(entry, algorithm, payload, prehashed))
        } else {
            Err(HsmErrorView::VerificationFailed("input must be hashed"@))
        },
    }
}

/// The HSM's reply to a request to sign.
#[derive(Debug)]
pub enum SignReply {
    Signed(Vec<u8>),
    /// It failed in a way that may pass.
    Transient(String),
    Failed(String),
}

/// The reply that a fault in a call to sign amounts to.
pub fn failed_signing(fault: CallFault, message: String) -> (r: SignReply)
    ensures
        r == (if passes(fault) {
            SignReply::Transient(message)
        } else {
            SignReply::Failed(message)
        }),
{
    if may_pass(fault) {
        SignReply::Transient(message)
    } else {
        SignReply::Failed(message)
    }
}

/// The HSM's reply to a verification.
#[derive(Debug)]
pub enum VerifyReply {
    Valid,
    Invalid,
    /// It failed in a way that may pass.
    Transient(String),
    Failed(String),
}

/// The reply that a fault in a call to verify amounts to.
pub fn failed_verification(fault: CallFault, message: String) -> (r: VerifyReply)
    ensures
        r == (if fault is SignatureInvalid {
            VerifyReply::Invalid
        } else if passes(fault) {
            VerifyReply::Transient(message)
        } else {
            VerifyReply::Failed(message)
        }),
{
    match fault {
        CallFault::SignatureInvalid => VerifyReply::Invalid,
        _ => if may_pass(fault) {
            VerifyReply::Transient(message)
        } else {
            VerifyReply::Failed(message)
        },
    }
}

/// The cluster backend: the register of keys, and how the HSM is reached.
pub struct HsmClusterBackend {
    keys: StringMap<KeyEntry>,
    cfg: HsmClusterConfig,
}

impl View for HsmClusterBackend {
    type V = Seq<(Seq<char>, KeyEntryView)>;

    closed spec fn view(&self) -> Seq<(Seq<char>, KeyEntryView)> {
        self.keys@
    }
}

impl HsmClusterBackend {
    /// How the HSM is reached.
    pub closed spec fn config(&self) -> HsmClusterConfigView {
        self.cfg@
    }

    /// Registers the enabled keys.
    pub fn new(cfg: &HsmClusterConfig, key_configs: &[KeyConfig]) -> (r: Self)
        ensures
            r@ == registered(key_configs.deep_view()),
            r.config() == cfg@,
    {
        let mut keys: StringMap<KeyEntry> = StringMap::new();
        let mut i: usize = 0;
        let ghost all = key_configs.deep_view();
        proof {
            assert(all.take(0) =~= Seq::empty());
        }
        while i < key_configs.len()
            invariant
                i <= key_configs.len(),
                all == key_configs.deep_view(),
                keys@ == registered(all.take(i as int)),
            decreases key_configs.len() - i,
        {
            let key = &key_configs[i];
            proof {
                assert(all.take(i + 1).drop_last() =~= all.take(i as int));
                assert(all.take(i + 1).last() == key@);
            }
            if key.enabled {
                let info = KeyInfo {
                    id: key.id.clone(),
                    description: key.description.clone(),
                    algorithm: Algorithm::from(key.algorithm),
                    enabled: key.enabled,
                    key_type: "HSM".to_owned(),
                };
                keys.insert(key.id.clone(), KeyEntry { info, label: key.backend_ref.clone() });
            }
            i = i + 1;
        }
        proof {
            assert(all.take(i as int) =~= all);
        }
        HsmClusterBackend { keys, cfg: cfg.clone() }
    }

    /// The backend's name.
    pub fn backend_name(&self) -> (r: &'static str)
        ensures
            r@ == "hsm-cluster"@,
    {
        "hsm-cluster"
    }

    /// The first try of an operation.
    pub fn first_try(&self) -> (r: Retry)
        ensures
            r@ == (RetryView {
                attempt: 0,
                limit: self.config().retry_attempts as nat,
                delay_ms: self.config().retry_delay_ms,
            }),
    {
        Retry::start(&self.cfg)
    }

    /// What the HSM is asked for to sign the payload.
    pub fn plan_sign(&self, key_id: &str, algorithm: Algorithm, payload: &[u8], prehashed: bool)
        -> (r: HsmResult<Operation>)
        ensures
            super::answer_view(r) == planned_signing(
                self@,
                key_id@,
                algorithm,
                payload@,
                prehashed,
            ),
    {
        let entry = match self.keys.get(key_id) {
            Some(entry) => entry,
            None => return Err(HsmError::KeyNotFound(key_id.to_owned())),
        };
        if !entry.info.enabled {
            return Err(HsmError::KeyDisabled(key_id.to_owned()));
        }
        if !signable(algorithm, payload, prehashed) {
            return Err(HsmError::SigningFailed("input must be hashed".to_owned()));
        }
        match to_mechanism_for(algorithm, prehashed) {
            Ok(mechanism) => Ok(
                Operation {
                    label: entry.label.clone(),
                    mechanism,
                    data: input_for(algorithm, payload, prehashed),
                },
            ),
            Err(e) => Err(e),
        }
    }

    /// What the HSM is asked for to verify a signature of the payload.
    pub fn plan_verify(&self, key_id: &str, algorithm: Algorithm, payload: &[u8], prehashed: bool)
        -> (r: HsmResult<Operation>)
        ensures
            super::answer_view(r) == planned_verification(
                self@,
                key_id@,
                algorithm,
                payload@,
                prehashed,
            ),
    {
        let entry = match self.keys.get(key_id) {
            Some(entry) => entry,
            None => return Err(HsmError::KeyNotFound(key_id.to_owned())),
        };
        if !signable(algorithm, payload, prehashed) {
            return Err(HsmError::VerificationFailed("input must be hashed".to_owned()));
        }
        match to_mechanism_for(algorithm, prehashed) {
            Ok(mechanism) => Ok(
                Operation {
                    label: entry.label.clone(),
                    mechanism,
                    data: input_for(algorithm, payload, prehashed),
                },
            ),
            Err(e) => Err(e),
        }
    }

    /// The label under which the HSM holds the public key.
    pub fn plan_public_key(&self, key_id: &str) -> (r: HsmResult<String>)
        ensures
            super::answer_view(r) == (match string_map::lookup(self@, key_id@) {
                None => Err(HsmErrorView::KeyNotFound(key_id@)),
                Some(entry) => Ok(entry.label),
            }),
    {
        match self.keys.get(key_id) {
            Some(entry) => Ok(entry.label.clone()),
            None => Err(HsmError::KeyNotFound(key_id.to_owned())),
        }
    }

    /// The public key, given its PEM and the name of its type.
    pub fn public_key(&self, key_id: &str, exported: (String, String)) -> (r: HsmResult<PublicKey>)
        ensures
            super::answer_view(r) == (match string_map::lookup(self@, key_id@) {
                None => Err(HsmErrorView::KeyNotFound(key_id@)),
                Some(entry) => Ok(
                    PublicKeyView {
                        key_id: key_id@,
                        pem: exported.0@,
                        algorithm: entry.info.algorithm,
                        key_type: exported.1@,
                    },
                ),
            }),
    {
        match self.keys.get(key_id) {
            Some(entry) => Ok(
                PublicKey {
                    key_id: key_id.to_owned(),
                    pem: exported.0,
                    algorithm: entry.info.algorithm,
                    key_type: exported.1,
                },
            ),
            None => Err(HsmError::KeyNotFound(key_id.to_owned())),
        }
    }

    /// All keys, in the order in which they were registered.
    pub fn list_keys(&self) -> (r: HsmResult<Vec<KeyInfo>>)
        ensures
            super::answer_view(r) == Ok::<Seq<KeyInfoView>, HsmErrorView>(entry_infos(self@)),
    {
        let mut list: Vec<KeyInfo> = Vec::new();
        let mut i: usize = 0;
        proof {
            assert(list.deep_view() =~= entry_infos(self@).take(0));
        }
        while i < self.keys.len()
            invariant
                i <= self@.len(),
                list.deep_view() == entry_infos(self@).take(i as int),
            decreases self@.len() - i,
        {
            let info = self.keys.value_at(i).info.clone();
            let ghost before = list.deep_view();
            list.push(info);
            proof {
                assert(list.deep_view() =~= before.push(info@));
                assert(entry_infos(self@).take(i + 1) =~= before.push(
                    entry_infos(self@)[i as int],
                ));
            }
            i = i + 1;
        }
        proof {
            assert(entry_infos(self@).take(i as int) =~= entry_infos(self@));
        }
        Ok(list)
    }
}

/// What callers may know of the registered keys.
pub open spec fn entry_infos(keys: Seq<(Seq<char>, KeyEntryView)>) -> Seq<KeyInfoView> {
    keys.map_values(|entry: (Seq<char>, KeyEntryView)| entry.1.info)
}

/// The answer to signing, given the HSM's reply. A cluster error is one that is tried again.
pub open spec fn sign_answer_of(reply: SignReply) -> Result<Seq<u8>, HsmErrorView> {
    match reply {
        SignReply::Signed(bytes) => Ok(bytes@),
        SignReply::Transient(e) => Err(HsmErrorView::ClusterError(e@)),
        SignReply::Failed(e) => Err(HsmErrorView::SigningFailed(e@)),
    }
}

/// The answer to signing, given the HSM's reply.
pub fn sign_answer(reply: SignReply) -> (r: HsmResult<Signature>)
    ensures
        super::answer_view(r) == sign_answer_of(reply),
{
    match reply {
        SignReply::Signed(bytes) => Ok(Signature(bytes)),
        SignReply::Transient(e) => Err(HsmError::ClusterError(e)),
        SignReply::Failed(e) => Err(HsmError::SigningFailed(e)),
    }
}

/// The answer to verifying, given the HSM's reply. A cluster error is one that is tried again.
pub open spec fn verify_answer_of(reply: VerifyReply) -> Result<bool, HsmErrorView> {
    match reply {
        VerifyReply::Valid => Ok(true),
        VerifyReply::Invalid => Ok(false),
        VerifyReply::Transient(e) => Err(HsmErrorView::ClusterError(e@)),
        VerifyReply::Failed(e) => Err(HsmErrorView::VerificationFailed(e@)),
    }
}

/// The answer to verifying, given the HSM's reply.
pub fn verify_answer(reply: VerifyReply) -> (r: HsmResult<bool>)
    ensures
        super::answer_view(r) == verify_answer_of(reply),
{
    match reply {
        VerifyReply::Valid => Ok(true),
        VerifyReply::Invalid => Ok(false),
        VerifyReply::Transient(e) => Err(HsmError::ClusterError(e)),
        VerifyReply::Failed(e) => Err(HsmError::VerificationFailed(e)),
    }
}

/// While tries are left, a transient failure to sign or to verify is tried again, and no other reply
/// is.
pub proof fn transient_failures_are_tried_again(
    retry: RetryView,
    signing: SignReply,
    verification: VerifyReply,
)
    requires
        retry.attempt < retry.limit,
    ensures
        next_step(retry, EventView::Result(sign_answer_of(signing))) is Again
            <==> signing is Transient,
        next_step(retry, EventView::Result(verify_answer_of(verification))) is Again
            <==> verification is Transient,
{
}

// ---- What the HSM is asked for ----

/// The mechanism is what the algorithm's name says: PKCS#1 for the R names, PSS for the P names, ECDSA
/// and HMAC. For a digest the RSA mechanisms are those that do not digest; the others stay.
pub proof fn mechanisms_fit_their_algorithms(algorithm: Algorithm)
    ensures
        algorithm.is_rsa() && !config::is_salted(algorithm) <==> mechanism_for(algorithm, false) is RsaPkcs,
        config::is_salted(algorithm) <==> mechanism_for(algorithm, false) is RsaPkcsPss,
        algorithm.is_ec() <==> mechanism_for(algorithm, false) is Ecdsa,
        algorithm.is_hmac() <==> mechanism_for(algorithm, false) is Hmac,
        algorithm.is_rsa() && !config::is_salted(algorithm) <==> mechanism_for(algorithm, true) is RsaPkcsRaw,
        config::is_salted(algorithm) <==> mechanism_for(algorithm, true) is RsaPkcsPssRaw,
        !algorithm.is_rsa() ==> mechanism_for(algorithm, true) == mechanism_for(algorithm, false),
        mechanism_for(algorithm, false) == mechanism_of(algorithm),
{
    config::names_tell_the_kind_of_key(algorithm);
}

/// A message is digested exactly once: a mechanism that digests by itself is applied to the payload as
/// it is, and ECDSA, which does not, to the payload's digest. A payload that is a digest is not digested
/// again: ECDSA and PSS take it as it is, and PKCS#1 in its frame; only HMAC takes it for a message.
pub proof fn messages_are_digested_once(algorithm: Algorithm, payload: Seq<u8>, prehashed: bool)
    ensures
        match mechanism_for(algorithm, prehashed) {
            Mechanism::RsaPkcs(_) => mechanism_input(algorithm, payload, prehashed) == payload,
            Mechanism::RsaPkcsPss(_, _) => mechanism_input(algorithm, payload, prehashed)
                == payload,
            Mechanism::Hmac(_) => mechanism_input(algorithm, payload, prehashed) == payload,
            Mechanism::Ecdsa => mechanism_input(algorithm, payload, prehashed) == (if prehashed {
                payload
            } else {
                super::digest(algorithm, payload)
            }),
            Mechanism::RsaPkcsPssRaw(_) => mechanism_input(algorithm, payload, prehashed) == payload,
            Mechanism::RsaPkcsRaw => {
                let input = mechanism_input(algorithm, payload, prehashed);
                &&& input.len() == 19 + payload.len()
                &&& input.skip(19) == payload
                &&& input.take(19) == digest_info_prefix(hash_of(algorithm))
            },
        },
{
    if mechanism_for(algorithm, prehashed) is RsaPkcsRaw {
        let input = mechanism_input(algorithm, payload, prehashed);
        assert(input.skip(19) =~= payload);
        assert(input.take(19) =~= digest_info_prefix(hash_of(algorithm)));
    }
}

/// Every message can be signed, and every digest but one for RSA whose length is not that of the
/// algorithm's digests.
pub proof fn signable_payloads(algorithm: Algorithm, payload: Seq<u8>, prehashed: bool)
    ensures
        !is_signable(algorithm, payload, prehashed) <==> prehashed && algorithm.is_rsa()
            && payload.len() != super::digest_len(algorithm),
{
}

/// The HSM is asked to sign and to verify with the key that stands under the id, by the algorithm that
/// was asked for; a signature is verified over what was signed.
pub proof fn operations_are_as_asked(
    keys: Seq<(Seq<char>, KeyEntryView)>,
    key_id: Seq<char>,
    algorithm: Algorithm,
    payload: Seq<u8>,
    prehashed: bool,
)
    ensures
        planned_signing(keys, key_id, algorithm, payload, prehashed) matches Ok(operation) ==> {
            &&& string_map::lookup(keys, key_id) matches Some(entry)
            &&& entry.info.enabled
            &&& operation.label == entry.label
            &&& operation.mechanism == mechanism_for(algorithm, prehashed)
            &&& operation.data == mechanism_input(algorithm, payload, prehashed)
            &&& planned_verification(keys, key_id, algorithm, payload, prehashed) == Ok::<
                OperationView,
                HsmErrorView,
            >(operation)
        },
        planned_verification(keys, key_id, algorithm, payload, prehashed) matches Ok(operation)
            ==> {
            &&& string_map::lookup(keys, key_id) matches Some(entry)
            &&& operation.label == entry.label
            &&& operation.mechanism == mechanism_for(algorithm, prehashed)
            &&& operation.data == mechanism_input(algorithm, payload, prehashed)
        },
{
}

/// The HSM is asked whenever the key is there, and enabled if it is to sign, and the payload can be
/// signed; an unknown key is not found, and a disabled one signs nothing.
pub proof fn operations_are_planned_for_known_keys(
    keys: Seq<(Seq<char>, KeyEntryView)>,
    key_id: Seq<char>,
    algorithm: Algorithm,
    payload: Seq<u8>,
    prehashed: bool,
)
    ensures
        string_map::lookup(keys, key_id) is None ==> planned_signing(
            keys,
            key_id,
            algorithm,
            payload,
            prehashed,
        ) == Err::<OperationView, HsmErrorView>(HsmErrorView::KeyNotFound(key_id))
            && planned_verification(keys, key_id, algorithm, payload, prehashed) == Err::<
            OperationView,
            HsmErrorView,
        >(HsmErrorView::KeyNotFound(key_id)),
        string_map::lookup(keys, key_id) matches Some(entry) ==> {
            let refused = prehashed && algorithm.is_rsa() && payload.len() != super::digest_len(
                algorithm,
            );
            &&& !entry.info.enabled ==> planned_signing(
                keys,
                key_id,
                algorithm,
                payload,
                prehashed,
            ) == Err::<OperationView, HsmErrorView>(HsmErrorView::KeyDisabled(key_id))
            &&& entry.info.enabled ==> (planned_signing(
                keys,
                key_id,
                algorithm,
                payload,
                prehashed,
            ) is Ok <==> !refused)
            &&& planned_verification(keys, key_id, algorithm, payload, prehashed) is Ok
                <==> !refused
        },
{
}

/// A configured key that is enabled, with no enabled one of its id after it, is registered as it was
/// configured: its label on the token is its reference.
pub proof fn registered_keys_are_as_configured(keys: Seq<KeyConfigView>, i: int)
    requires
        0 <= i < keys.len(),
        keys[i].enabled,
        forall|j: int|
            i < j < keys.len() && (#[trigger] keys[j]).enabled ==> keys[j].id != keys[i].id,
    ensures
        string_map::lookup(registered(keys), keys[i].id) matches Some(entry) && {
            &&& entry.label == keys[i].backend_ref
            &&& entry.info.id == keys[i].id
            &&& entry.info.description == keys[i].description
            &&& entry.info.algorithm == config::configured(keys[i].algorithm)
            &&& entry.info.enabled
            &&& entry.info.key_type == "HSM"@
        },
{
    registered_under_id(keys, keys[i].id);
    lemma_last_configured(keys, i);
}

proof fn lemma_last_configured(keys: Seq<KeyConfigView>, i: int)
    requires
        0 <= i < keys.len(),
        keys[i].enabled,
        forall|j: int|
            i < j < keys.len() && (#[trigger] keys[j]).enabled ==> keys[j].id != keys[i].id,
    ensures
        last_configured(keys, keys[i].id) == Some(keys[i]),
    decreases keys.len(),
{
    if i < keys.len() - 1 {
        let fewer = keys.drop_last();
        assert forall|j: int| i < j < fewer.len() && (#[trigger] fewer[j]).enabled implies fewer[j].id
            != fewer[i].id by {
            assert(fewer[j] == keys[j]);
        }
        assert(keys[keys.len() - 1] == keys.last());
        lemma_last_configured(fewer, i);
    }
}

/// The list tells of every registered key, in the order of the register, and of nothing else.
pub proof fn register_is_listed(keys: Seq<(Seq<char>, KeyEntryView)>, i: int)
    ensures
        entry_infos(keys).len() == keys.len(),
        0 <= i < keys.len() ==> entry_infos(keys)[i] == keys[i].1.info,
{
}

// ---- What is made of the HSM's replies ----

/// Of the objects that a search finds the first counts. A search that finds none misses the key, and
/// one that fails is a cluster error.
pub proof fn first_object_counts<T>(
    objects: Vec<T>,
    fault: String,
    label: Seq<char>,
)
    ensures
        objects@.len() > 0 ==> first_object(Ok::<Vec<T>, String>(objects), label) == Ok::<
            T,
            HsmErrorView,
        >(objects@[0]),
        objects@.len() == 0 ==> first_object(Ok::<Vec<T>, String>(objects), label) == Err::<
            T,
            HsmErrorView,
        >(HsmErrorView::KeyNotFound(label)),
        first_object(Err::<Vec<T>, String>(fault), label) == Err::<T, HsmErrorView>(
            HsmErrorView::ClusterError(fault@),
        ),
{
}

/// What is exported of a public key object holds the bytes that were read, in base64, between the
/// boundaries of a public key; and the type is told apart. Without the bytes, or after a failure to
/// read, there is a cluster error.
pub proof fn exported_objects_hold_their_bytes(
    key_type: Result<Option<ObjectKeyType>, String>,
    value: Result<Option<Vec<u8>>, String>,
)
    ensures
        exported_object(key_type, value) is Ok <==> key_type is Ok && (value matches Ok(Some(_))),
        exported_object(key_type, value) matches Err(e) ==> e is ClusterError,
        exported_object(key_type, value) matches Ok((pem, name)) ==> {
            &&& value matches Ok(Some(der))
            &&& key_type matches Ok(found)
            &&& name == "RSA"@ <==> found == Some(ObjectKeyType::Rsa)
            &&& name == "UNKNOWN"@ <==> found == Some(ObjectKeyType::Other)
            &&& name == "EC"@ <==> found == Some(ObjectKeyType::Ec) || found is None
            &&& (forall|i: int|
                0 <= i < encoding::base64_text(der@).len() ==> encoding::is_base64_char(
                    #[trigger] encoding::base64_text(der@)[i],
                )) ==> encoding::pem_body(pem) == encoding::base64_text(der@)
        },
{
    reveal_strlit("RSA");
    reveal_strlit("EC");
    reveal_strlit("UNKNOWN");
    assert("RSA"@.len() == 3 && "EC"@.len() == 2 && "UNKNOWN"@.len() == 7);
    if let Ok(Some(der)) = value {
        let body = encoding::base64_text(der@);
        if forall|i: int|
            0 <= i < body.len() ==> encoding::is_base64_char(#[trigger] body[i]) {
            lemma_public_pem(body);
        }
    }
}

proof fn lemma_public_pem(body: Seq<char>)
    requires
        forall|i: int| 0 <= i < body.len() ==> encoding::is_base64_char(#[trigger] body[i]),
    ensures
        encoding::pem_body(
            "-----BEGIN PUBLIC KEY-----\n"@ + body + "\n-----END PUBLIC KEY-----\n"@,
        ) == body,
{
    reveal_strlit("-----BEGIN PUBLIC KEY-----\n");
    reveal_strlit("\n-----END PUBLIC KEY-----\n");
    let head = "-----BEGIN PUBLIC KEY-----\n"@;
    let tail = "\n-----END PUBLIC KEY-----\n"@;
    let begin = head.take(26);
    let end = tail.subrange(1, 25);
    assert(head =~= begin + seq!['\n']);
    assert(tail =~= seq!['\n'] + (end + seq!['\n'] + Seq::<char>::empty()));
    assert(begin.take(5) =~= seq!['-', '-', '-', '-', '-']);
    assert(end.take(5) =~= seq!['-', '-', '-', '-', '-']);
    assert(encoding::is_line(begin));
    assert(encoding::is_line(end));
    assert(begin.last() == '-' && end.last() == '-');
    assert(encoding::is_line(body)) by {
        assert forall|i: int| 0 <= i < body.len() implies #[trigger] body[i] != '\n' by {
            assert(encoding::is_base64_char(body[i]));
        }
    }
    if body.len() > 0 {
        assert(encoding::is_base64_char(body[body.len() - 1]));
        assert(encoding::is_base64_char(body[0]));
    }
    let rest = end + seq!['\n'] + Seq::<char>::empty();
    encoding::pem_lines_hold_themselves(begin);
    encoding::pem_lines_hold_themselves(end);
    encoding::pem_lines_hold_themselves(body);
    encoding::pem_lines_add_up(begin, body + seq!['\n'] + rest);
    encoding::pem_lines_add_up(body, rest);
    encoding::pem_lines_add_up(end, Seq::empty());
    assert(head + body + tail =~= begin + seq!['\n'] + (body + seq!['\n'] + rest));
    if body.len() >= 5 {
        assert(body.take(5)[0] == body[0]);
    }
    assert(encoding::pem_body(Seq::<char>::empty()) =~= Seq::empty());
    assert(encoding::pem_body(head + body + tail) =~= body);
}

/// A signature that the HSM gave comes back as it is. A failure gives none: one that may pass counts as
/// a cluster error, any other as a failure to sign.
pub proof fn signing_replies_are_told(reply: SignReply)
    ensures
        sign_answer_of(reply) matches Ok(signature) <==> reply matches SignReply::Signed(_),
        reply matches SignReply::Signed(bytes) ==> sign_answer_of(reply) == Ok::<
            Seq<u8>,
            HsmErrorView,
        >(bytes@),
        reply matches SignReply::Transient(e) ==> sign_answer_of(reply) == Err::<
            Seq<u8>,
            HsmErrorView,
        >(HsmErrorView::ClusterError(e@)),
        reply matches SignReply::Failed(e) ==> sign_answer_of(reply) == Err::<
            Seq<u8>,
            HsmErrorView,
        >(HsmErrorView::SigningFailed(e@)),
{
}

/// A signature is valid or not as the HSM says, and neither where it fails.
pub proof fn verification_replies_are_told(reply: VerifyReply)
    ensures
        verify_answer_of(reply) == Ok::<bool, HsmErrorView>(true) <==> reply is Valid,
        verify_answer_of(reply) == Ok::<bool, HsmErrorView>(false) <==> reply is Invalid,
        reply matches VerifyReply::Transient(e) ==> verify_answer_of(reply) == Err::<
            bool,
            HsmErrorView,
        >(HsmErrorView::ClusterError(e@)),
        reply matches VerifyReply::Failed(e) ==> verify_answer_of(reply) == Err::<
            bool,
            HsmErrorView,
        >(HsmErrorView::VerificationFailed(e@)),
{
}

/// An invalid signature is no fault that may pass, and a fault that is not known is none either. Faults
/// of a session, of the token or of the device may.
pub proof fn passing_faults(fault: CallFault)
    ensures
        passes(fault) <==> fault is FunctionFailed || fault is DeviceError || fault is DeviceMemory
            || fault is DeviceRemoved || fault is TokenNotPresent || fault is SessionClosed
            || fault is SessionHandleInvalid || fault is UserNotLoggedIn,
{
}

/// Cluster errors are what an operation is tried again for, and nothing else is: not the want of a
/// session, which ends it with a cluster error of its own.
pub proof fn cluster_errors_are_transient<T>(
    retry: RetryView,
    value: T,
    e: HsmErrorView,
    why: Seq<char>,
)
    ensures
        is_transient(EventView::<T>::Result(Err(e))) <==> e is ClusterError,
        !is_transient(EventView::<T>::Result(Ok(value))),
        !is_transient(EventView::<T>::NoSession(why)),
        next_step(retry, EventView::<T>::Result(Ok(value))) == NextView::<T>::Done(Ok(value)),
        next_step(retry, EventView::<T>::NoSession(why)) == NextView::<T>::Done(
            Err(HsmErrorView::ClusterError("Session pool exhausted: "@ + why)),
        ),
        !(e is ClusterError) ==> next_step(retry, EventView::<T>::Result(Err(e))) == NextView::<
            T,
        >::Done(Err(e)),
{
}

/// While tries are left, transient errors alone end nothing: the operation is tried as often as the
/// limit says, after the first try.
pub proof fn tries_are_not_given_up_early<T>(retry: RetryView, events: Seq<EventView<T>>)
    requires
        events.len() <= retry.limit - retry.attempt,
        forall|i: int| 0 <= i < events.len() ==> is_transient(#[trigger] events[i]),
    ensures
        outcome(retry, events) is None,
    decreases events.len(),
{
    if events.len() > 0 {
        assert(is_transient(events[0]));
        let again = RetryView { attempt: retry.attempt + 1, ..retry };
        let rest = events.drop_first();
        assert forall|i: int| 0 <= i < rest.len() implies is_transient(#[trigger] rest[i]) by {
            assert(rest[i] == events[i + 1]);
        }
        tries_are_not_given_up_early(again, rest);
    }
}

/// A further try counts one more, and keeps the limit and the delay.
pub proof fn further_tries_count_up<T>(retry: RetryView, event: EventView<T>, again: RetryView)
    requires
        next_step(retry, event) == NextView::<T>::Again(again),
    ensures
        again.attempt == retry.attempt + 1,
        again.limit == retry.limit,
        again.delay_ms == retry.delay_ms,
        again.attempt <= again.limit,
{
}

/// The frames of digests differ in three bytes: in the length of the whole, in the number of the hash
/// function, which counts up with the length of its digests, and in that length.
pub proof fn frames_name_the_hash_function(a: HashKind, b: HashKind)
    ensures
        digest_info_prefix(a).len() == 19,
        digest_info_prefix(a)[1] == 17 + hash_len(a),
        16 * (digest_info_prefix(a)[14] + 1) == hash_len(a),
        digest_info_prefix(a)[18] == hash_len(a),
        forall|i: int|
            0 <= i < 19 && i != 1 && i != 14 && i != 18 ==> #[trigger] digest_info_prefix(a)[i]
                == digest_info_prefix(b)[i],
{
}

/// One more key that is configured comes last in the register if its id is new, and takes the place of
/// the one with its id if there is one; the others stay. A disabled key changes nothing.
pub proof fn registering_one_more_key(keys: Seq<KeyConfigView>, key: KeyConfigView, i: int)
    ensures
        !key.enabled ==> registered(keys.push(key)) == registered(keys),
        key.enabled && (forall|j: int|
            0 <= j < registered(keys).len() ==> (#[trigger] registered(keys)[j]).0 != key.id)
            ==> registered(keys.push(key)).len() == registered(keys).len() + 1 && (0 <= i
            < registered(keys).len() ==> registered(keys.push(key))[i] == registered(keys)[i])
            && registered(keys.push(key)).last().0 == key.id && registered(
            keys.push(key),
        ).last().1.label == key.backend_ref,
        key.enabled && 0 <= i < registered(keys).len() && registered(keys)[i].0 == key.id
            ==> registered(keys.push(key)).len() == registered(keys).len() && registered(
            keys.push(key),
        )[i].0 == key.id && registered(keys.push(key))[i].1.label == key.backend_ref,
{
    let before = registered(keys);
    let more = keys.push(key);
    assert(more.drop_last() =~= keys);
    assert(more.last() == key);
    if key.enabled {
        if forall|j: int| 0 <= j < before.len() ==> (#[trigger] before[j]).0 != key.id {
            string_map::lemma_upsert_push(before, key.id, entry_of(key));
        } else if 0 <= i < before.len() && before[i].0 == key.id {
            registered_keys_are_enabled(keys);
            assert forall|j: int| 0 <= j < i implies (#[trigger] before[j]).0 != key.id by {
                assert(before[j].0 != before[i].0);
            }
            string_map::lemma_upsert_update(before, key.id, entry_of(key), i);
        }
    }
}

} // verus!
