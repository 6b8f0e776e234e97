//! The cryptography that other crates provide.

use crate::encoding;
use crate::text;
use hmac::{Hmac, Mac};
use p256::ecdsa::signature::hazmat::{PrehashSigner, PrehashVerifier};
use rand::RngCore;
use ring::rand::SystemRandom;
use ring::signature::{EcdsaKeyPair, RsaEncoding, RsaKeyPair, RsaParameters, UnparsedPublicKey};
use rsa::pkcs1::DecodeRsaPublicKey;
use rsa::pkcs8::{
    DecodePrivateKey, DecodePublicKey, EncodePrivateKey, EncodePublicKey, LineEnding,
    SubjectPublicKeyInfoRef,
};
use rsa::{Pkcs1v15Sign, Pss};
use sha2::{Sha256, Sha384, Sha512};
use vstd::prelude::*;
use vstd::utf8::*;

verus! {

// ---- RSA ----

/// A signature scheme with RSA keys.
#[derive(Debug, Clone, Copy, PartialEq, Eq, Structural)]
pub enum RsaScheme {
    Pkcs1Sha256,
    Pkcs1Sha384,
    Pkcs1Sha512,
    PssSha256,
    PssSha384,
    PssSha512,
}

/// How many random bytes go into a signature of the scheme: none in PKCS#1, as many as the digest
/// has in PSS.
pub open spec fn salt_len(scheme: RsaScheme) -> nat {
    match scheme {
        RsaScheme::PssSha256 => 32,
        RsaScheme::PssSha384 => 48,
        RsaScheme::PssSha512 => 64,
        _ => 0,
    }
}

/// The digest of a message that the scheme signs.
pub open spec fn scheme_digest(scheme: RsaScheme, message: Seq<u8>) -> Seq<u8> {
    match scheme {
        RsaScheme::Pkcs1Sha256 | RsaScheme::PssSha256 => super::sha256(message),
        RsaScheme::Pkcs1Sha384 | RsaScheme::PssSha384 => super::sha384(message),
        RsaScheme::Pkcs1Sha512 | RsaScheme::PssSha512 => super::sha512(message),
    }
}

/// How many bytes the scheme's digests have.
pub open spec fn scheme_digest_len(scheme: RsaScheme) -> nat {
    match scheme {
        RsaScheme::Pkcs1Sha256 | RsaScheme::PssSha256 => 32,
        RsaScheme::Pkcs1Sha384 | RsaScheme::PssSha384 => 48,
        RsaScheme::Pkcs1Sha512 | RsaScheme::PssSha512 => 64,
    }
}

/// Why an RSA private key in PEM has no PKCS#8 DER form.
pub enum RsaPemFault {
    Decode(String),
    Encode(String),
}

/// What an `RsaPemFault` says.
pub enum RsaPemFaultView {
    Decode(Seq<char>),
    Encode(Seq<char>),
}

/// The DER form, or what the fault says.
pub open spec fn der_or_fault(r: Result<Vec<u8>, RsaPemFault>) -> Result<Seq<u8>, RsaPemFaultView> {
    match r {
        Ok(der) => Ok(der@),
        Err(RsaPemFault::Decode(e)) => Err(RsaPemFaultView::Decode(e@)),
        Err(RsaPemFault::Encode(e)) => Err(RsaPemFaultView::Encode(e@)),
    }
}

/// What `rsa::RsaPrivateKey` reads from a PKCS#8 PEM and writes again as DER.
pub uninterp spec fn rsa_pkcs8(pem: Seq<char>) -> Result<Seq<u8>, RsaPemFaultView>;

/// The PKCS#8 DER form of an RSA private key in PEM (`rsa::RsaPrivateKey::from_pkcs8_pem`, then
/// `to_pkcs8_der`), or the message of the error of the one or the other.
#[verifier::external_body]
pub(crate) fn rsa_der(pem: &str) -> (r: Result<Vec<u8>, RsaPemFault>)
    ensures
        der_or_fault(r) == rsa_pkcs8(pem@),
{
    let key = rsa::RsaPrivateKey::from_pkcs8_pem(pem).map_err(
        |e| RsaPemFault::Decode(e.to_string()),
    )?;
    let der = key.to_pkcs8_der().map_err(|e| RsaPemFault::Encode(e.to_string()))?;
    Ok(der.as_bytes().to_vec())
}

/// The text, or what the fault says.
pub open spec fn text_or_fault(r: Result<String, String>) -> Result<Seq<char>, Seq<char>> {
    match r {
        Ok(s) => Ok(s@),
        Err(e) => Err(e@),
    }
}

/// The public key that `rsa` writes in PEM for a private key in PKCS#8 PEM.
pub uninterp spec fn rsa_public_pem(pem: Seq<char>) -> Result<Seq<char>, Seq<char>>;

/// The text is a public key in PEM, to judge by its first line.
pub open spec fn is_public_pem(pem: Seq<char>) -> bool {
    text::has_prefix(pem, "-----BEGIN PUBLIC KEY-----\n"@)
}

/// The public key of an RSA private key in PEM (`rsa::RsaPrivateKey::from_pkcs8_pem`,
/// `to_public_key`, then `to_public_key_pem` with line feeds, which writes the label
/// `PUBLIC KEY`), or the message of the error.
#[verifier::external_body]
pub(crate) fn rsa_export(pem: &str) -> (r: Result<String, String>)
    ensures
        text_or_fault(r) == rsa_public_pem(pem@),
        r matches Ok(public) ==> is_public_pem(public@),
{
    let key = rsa::RsaPrivateKey::from_pkcs8_pem(pem).map_err(|e| e.to_string())?;
    key.to_public_key().to_public_key_pem(LineEnding::LF).map_err(|e| e.to_string())
}

/// Why no signature was made.
pub enum SignFault {
    /// The key was rejected.
    Key(String),
    /// The key is fine, but signing failed.
    Sign(String),
}

/// What a `SignFault` says.
pub enum SignFaultView {
    Key(Seq<char>),
    Sign(Seq<char>),
}

/// The signature, or what the fault says.
pub open spec fn signature_or_fault(r: Result<Vec<u8>, SignFault>) -> Result<
    Seq<u8>,
    SignFaultView,
> {
    match r {
        Ok(sig) => Ok(sig@),
        Err(SignFault::Key(e)) => Err(SignFaultView::Key(e@)),
        Err(SignFault::Sign(e)) => Err(SignFaultView::Sign(e@)),
    }
}

/// Why `ring::signature::RsaKeyPair::from_pkcs8` rejects a key, if it does.
pub uninterp spec fn ring_rsa_key_fault(der: Seq<u8>) -> Option<Seq<char>>;

/// Does `ring::signature::RsaKeyPair::from_pkcs8` take the key? If not, the error says why.
#[verifier::external_body]
pub(crate) fn rsa_key_taken(der: &[u8]) -> (r: Result<(), String>)
    ensures
        r matches Ok(_) ==> ring_rsa_key_fault(der@) is None,
        r matches Err(e) ==> ring_rsa_key_fault(der@) == Some(e@),
{
    RsaKeyPair::from_pkcs8(der).map(|_| ()).map_err(|e| format!("{:?}", e))
}

/// What `ring::signature::RsaKeyPair::sign` computes when the random bytes that it draws are `salt`;
/// none where it fails.
pub uninterp spec fn ring_rsa_signature(
    scheme: RsaScheme,
    der: Seq<u8>,
    message: Seq<u8>,
    salt: Seq<u8>,
) -> Option<Seq<u8>>;

/// The signature is one of the message, under some salt.
pub open spec fn is_rsa_signature(
    scheme: RsaScheme,
    der: Seq<u8>,
    message: Seq<u8>,
    signature: Seq<u8>,
) -> bool {
    exists|salt: Seq<u8>|
        salt.len() == salt_len(scheme) && #[trigger] ring_rsa_signature(scheme, der, message, salt)
            == Some(signature)
}

/// The PKCS#1 form that an RSA public key in SPKI DER holds, as `spki` reads it.
pub uninterp spec fn rsa_pkcs1(spki: Seq<u8>) -> Option<Seq<u8>>;

/// How many bits the modulus has (`n` of `rsa::RsaPrivateKey`, of a private key in PKCS#8 PEM).
pub uninterp spec fn rsa_modulus_bits(pem: Seq<char>) -> nat;

/// How many bytes a signature has: as many as the modulus.
pub open spec fn rsa_signature_len(pem: Seq<char>) -> nat {
    (rsa_modulus_bits(pem) + 7) as nat / 8
}

/// The public key in SPKI DER, if `public` is one in PEM that holds base64.
pub open spec fn spki_of(public: Result<Seq<char>, Seq<char>>) -> Result<Seq<u8>, Seq<char>> {
    match public {
        Ok(public) => encoding::base64_bytes(encoding::pem_body(public)),
        Err(e) => Err(e),
    }
}

/// The public key that is exported from the private key can be read, and under it `ring` accepts the
/// signature of the message.
pub open spec fn export_accepts(
    scheme: RsaScheme,
    pem: Seq<char>,
    message: Seq<u8>,
    signature: Seq<u8>,
) -> bool {
    spki_of(rsa_public_pem(pem)) matches Ok(spki) && rsa_pkcs1(spki) matches Some(key)
        && ring_rsa_accepts(scheme, key, message, signature)
}

/// Under the public key of each private key in PEM with the PKCS#8 form `der`, `ring` accepts the
/// signature of the message, which is as long as the modulus.
pub open spec fn accepted_under_exports(
    scheme: RsaScheme,
    der: Seq<u8>,
    message: Seq<u8>,
    signature: Seq<u8>,
) -> bool {
    forall|pem: Seq<char>|
        (#[trigger] rsa_pkcs8(pem)) == Ok::<Seq<u8>, RsaPemFaultView>(der) ==> export_accepts(
            scheme,
            pem,
            message,
            signature,
        ) && signature.len() == rsa_signature_len(pem)
}

/// Signs the message with an RSA key in PKCS#8 DER (`ring::signature::RsaKeyPair::from_pkcs8`, then
/// `sign`, which digests the message itself). Which keys are rejected, and what is signed under a
/// given salt, have names. The salt is random in PSS, with as many bytes as the digest; a PKCS#1
/// signature has none, and is determined by the key and the message. Either way the signature is as
/// long as the modulus. The contract adds that `ring` accepts it under the public key that `rsa`
/// exports: `sign` undoes the signature with the public exponent before it returns it, and `ring`
/// takes the public half of every private key that it takes. In PSS `sign` fails too where the
/// system's random source does; that it does not is left unsaid.
#[verifier::external_body]
pub(crate) fn rsa_sign(scheme: RsaScheme, der: &[u8], message: &[u8]) -> (r: Result<
    Vec<u8>,
    SignFault,
>)
    ensures
        r matches Ok(sig) ==> exists|salt: Seq<u8>|
            salt.len() == salt_len(scheme) && #[trigger] ring_rsa_signature(
                scheme,
                der@,
                message@,
                salt,
            ) == Some(sig@),
        r matches Ok(sig) ==> accepted_under_exports(scheme, der@, message@, sig@),
        r matches Ok(_) ==> ring_rsa_key_fault(der@) is None,
        r matches Err(SignFault::Key(e)) ==> ring_rsa_key_fault(der@) == Some(e@),
        r matches Err(SignFault::Sign(e)) ==> ring_rsa_key_fault(der@) is None && e@
            == "Unspecified"@,
        r matches Err(SignFault::Sign(_)) ==> salt_len(scheme) == 0 ==> ring_rsa_signature(
            scheme,
            der@,
            message@,
            Seq::empty(),
        ) is None,
{
    let key = RsaKeyPair::from_pkcs8(der).map_err(|e| SignFault::Key(format!("{:?}", e)))?;
    let encoding: &'static dyn RsaEncoding = match scheme {
        RsaScheme::Pkcs1Sha256 => &ring::signature::RSA_PKCS1_SHA256,
        RsaScheme::Pkcs1Sha384 => &ring::signature::RSA_PKCS1_SHA384,
        RsaScheme::Pkcs1Sha512 => &ring::signature::RSA_PKCS1_SHA512,
        RsaScheme::PssSha256 => &ring::signature::RSA_PSS_SHA256,
        RsaScheme::PssSha384 => &ring::signature::RSA_PSS_SHA384,
        RsaScheme::PssSha512 => &ring::signature::RSA_PSS_SHA512,
    };
    let mut sig = vec![0u8; key.public().modulus_len()];
    let signed = key.sign(encoding, &SystemRandom::new(), message, &mut sig);
    signed.map(|()| sig).map_err(|e| SignFault::Sign(format!("{:?}", e)))
}

/// What `rsa::RsaPrivateKey` signs, with the private key in PKCS#8 PEM, when the random bytes that go
/// into the padding are `salt`; or what the error says.
pub uninterp spec fn rsa_digest_signature(
    scheme: RsaScheme,
    pem: Seq<char>,
    digest: Seq<u8>,
    salt: Seq<u8>,
) -> Result<Seq<u8>, Seq<char>>;

/// A signature was made.
pub open spec fn made(signature: Seq<u8>) -> Result<Seq<u8>, Seq<char>> {
    Ok(signature)
}

/// No signature was made.
pub open spec fn failed(e: Seq<char>) -> Result<Seq<u8>, Seq<char>> {
    Err(e)
}

/// Under the public key that is exported from the private key, `rsa` accepts the signature of the
/// digest; and so does `ring` of each message with that digest.
pub open spec fn export_accepts_digest(
    scheme: RsaScheme,
    pem: Seq<char>,
    digest: Seq<u8>,
    signature: Seq<u8>,
) -> bool {
    &&& spki_of(rsa_public_pem(pem)) matches Ok(spki) && rsa_pkcs1(spki) matches Some(key)
        && rsa_accepts_digest(scheme, key, digest, signature)
    &&& accepts_with_digest(scheme, pem, digest, signature)
}

/// Under the exported public key, `ring` accepts the signature of each message with the digest.
pub open spec fn accepts_with_digest(
    scheme: RsaScheme,
    pem: Seq<char>,
    digest: Seq<u8>,
    signature: Seq<u8>,
) -> bool {
    forall|message: Seq<u8>| #[trigger]
        scheme_digest(scheme, message) == digest ==> export_accepts(scheme, pem, message, signature)
}

/// The text is an RSA private key in PEM, and `ring` takes it.
pub open spec fn is_taken(pem: Seq<char>) -> bool {
    rsa_pkcs8(pem) matches Ok(der) && ring_rsa_key_fault(der) is None
}

/// Signs a digest with an RSA private key in PEM that `ring` takes
/// (`rsa::RsaPrivateKey::from_pkcs8_pem`, then `sign` with `Pkcs1v15Sign` or `sign_with_rng` with
/// `Pss`). Other keys are left out: `rsa` bounds neither the size of a key nor how far its two primes
/// lie apart, and computes without end where one is much smaller than the other. What is signed under
/// a given salt has a name; the salt is random in PSS, with as many bytes as the digest, and there is
/// none in PKCS#1. A digest of the wrong length is refused. The signature is as long as the modulus,
/// which has 256 bytes or more. The contract adds that the signature is accepted under the exported
/// public key: it is undone with the public exponent before it is returned, and the padding of a
/// digest is the same in `rsa` and in `ring`.
#[verifier::external_body]
pub(crate) fn rsa_sign_digest(scheme: RsaScheme, pem: &str, digest: &[u8]) -> (r: Result<
    Vec<u8>,
    String,
>)
    requires
        is_taken(pem@),
    ensures
        r matches Ok(sig) ==> exists|salt: Seq<u8>|
            salt.len() == salt_len(scheme) && made(sig@) == #[trigger] rsa_digest_signature(
                scheme,
                pem@,
                digest@,
                salt,
            ),
        r matches Err(e) ==> exists|salt: Seq<u8>|
            salt.len() == salt_len(scheme) && failed(e@) == #[trigger] rsa_digest_signature(
                scheme,
                pem@,
                digest@,
                salt,
            ),
        r matches Ok(sig) ==> export_accepts_digest(scheme, pem@, digest@, sig@),
        r matches Ok(sig) ==> sig@.len() == (rsa_modulus_bits(pem@) + 7) as nat / 8,
        r matches Ok(sig) ==> sig@.len() >= 256,
        r matches Ok(_) ==> digest@.len() == scheme_digest_len(scheme),
        r matches Err(e) ==> digest@.len() != scheme_digest_len(scheme) ==> e@
            == "input must be hashed"@,
{
    let key = rsa::RsaPrivateKey::from_pkcs8_pem(pem).map_err(|e| e.to_string())?;
    let rng = &mut rand::thread_rng();
    let signed = match scheme {
        RsaScheme::Pkcs1Sha256 => key.sign(Pkcs1v15Sign::new::<Sha256>(), digest),
        RsaScheme::Pkcs1Sha384 => key.sign(Pkcs1v15Sign::new::<Sha384>(), digest),
        RsaScheme::Pkcs1Sha512 => key.sign(Pkcs1v15Sign::new::<Sha512>(), digest),
        RsaScheme::PssSha256 => key.sign_with_rng(rng, Pss::new::<Sha256>(), digest),
        RsaScheme::PssSha384 => key.sign_with_rng(rng, Pss::new::<Sha384>(), digest),
        RsaScheme::PssSha512 => key.sign_with_rng(rng, Pss::new::<Sha512>(), digest),
    };
    signed.map_err(|e| e.to_string())
}

/// The bytes, if there are some.
pub open spec fn bytes_if_any(r: Option<Vec<u8>>) -> Option<Seq<u8>> {
    match r {
        Some(bytes) => Some(bytes@),
        None => None,
    }
}

/// The PKCS#1 DER form that an RSA public key in SPKI DER holds
/// (`spki::SubjectPublicKeyInfoRef::try_from`, `assert_algorithm_oid` with that of RSA, and the bits of
/// `subject_public_key`); none where the bytes are no such key.
#[verifier::external_body]
pub(crate) fn rsa_public_pkcs1(spki: &[u8]) -> (r: Option<Vec<u8>>)
    ensures
        bytes_if_any(r) == rsa_pkcs1(spki@),
{
    let info = SubjectPublicKeyInfoRef::try_from(spki).ok()?;
    info.algorithm.assert_algorithm_oid(rsa::pkcs1::ALGORITHM_OID).ok()?;
    info.subject_public_key.as_bytes().map(|key| key.to_vec())
}

/// Does `rsa` accept the signature of a digest under a public key in PKCS#1 DER?
pub uninterp spec fn rsa_accepts_digest(
    scheme: RsaScheme,
    key: Seq<u8>,
    digest: Seq<u8>,
    signature: Seq<u8>,
) -> bool;

/// Does the signature of the digest verify under the public key in PKCS#1 DER
/// (`rsa::RsaPublicKey::from_pkcs1_der`, then `verify` with `Pkcs1v15Sign` or `Pss`)? It does not
/// where the key cannot be read.
#[verifier::external_body]
pub(crate) fn rsa_verify_digest(scheme: RsaScheme, key: &[u8], digest: &[u8], signature: &[u8])
    -> (r: bool)
    ensures
        r == rsa_accepts_digest(scheme, key@, digest@, signature@),
{
    let read = rsa::RsaPublicKey::from_pkcs1_der(key).ok();
    let checked = read.map(|key| match scheme {
        RsaScheme::Pkcs1Sha256 => key.verify(Pkcs1v15Sign::new::<Sha256>(), digest, signature),
        RsaScheme::Pkcs1Sha384 => key.verify(Pkcs1v15Sign::new::<Sha384>(), digest, signature),
        RsaScheme::Pkcs1Sha512 => key.verify(Pkcs1v15Sign::new::<Sha512>(), digest, signature),
        RsaScheme::PssSha256 => key.verify(Pss::new::<Sha256>(), digest, signature),
        RsaScheme::PssSha384 => key.verify(Pss::new::<Sha384>(), digest, signature),
        RsaScheme::PssSha512 => key.verify(Pss::new::<Sha512>(), digest, signature),
    });
    matches!(checked, Some(Ok(())))
}

/// Does `ring::signature::UnparsedPublicKey::verify` accept the signature?
pub uninterp spec fn ring_rsa_accepts(
    scheme: RsaScheme,
    key: Seq<u8>,
    message: Seq<u8>,
    signature: Seq<u8>,
) -> bool;

/// Does the signature of the message verify under the key, in PKCS#1 DER
/// (`ring::signature::UnparsedPublicKey`'s `verify` with the scheme's parameters for keys of 2048 to
/// 8192 bits)?
#[verifier::external_body]
pub(crate) fn rsa_verify(scheme: RsaScheme, key: &[u8], message: &[u8], signature: &[u8]) -> (r:
    bool)
    ensures
        r == ring_rsa_accepts(scheme, key@, message@, signature@),
{
    let parameters: &'static RsaParameters = match scheme {
        RsaScheme::Pkcs1Sha256 => &ring::signature::RSA_PKCS1_2048_8192_SHA256,
        RsaScheme::Pkcs1Sha384 => &ring::signature::RSA_PKCS1_2048_8192_SHA384,
        RsaScheme::Pkcs1Sha512 => &ring::signature::RSA_PKCS1_2048_8192_SHA512,
        RsaScheme::PssSha256 => &ring::signature::RSA_PSS_2048_8192_SHA256,
        RsaScheme::PssSha384 => &ring::signature::RSA_PSS_2048_8192_SHA384,
        RsaScheme::PssSha512 => &ring::signature::RSA_PSS_2048_8192_SHA512,
    };
    UnparsedPublicKey::new(parameters, key).verify(message, signature).is_ok()
}

// ---- Elliptic curves ----

/// A curve that keys lie on.
#[derive(Debug, Clone, Copy, PartialEq, Eq, Structural)]
pub enum Curve {
    P256,
    P384,
}

/// Why a signature could not be checked.
pub enum EcFault {
    Key(String),
    Signature(String),
}

/// What an `EcFault` says.
pub enum EcFaultView {
    Key(Seq<char>),
    Signature(Seq<char>),
}

/// The verdict, or what the fault says.
pub open spec fn verdict_or_fault(r: Result<bool, EcFault>) -> Result<bool, EcFaultView> {
    match r {
        Ok(b) => Ok(b),
        Err(EcFault::Key(e)) => Err(EcFaultView::Key(e@)),
        Err(EcFault::Signature(e)) => Err(EcFaultView::Signature(e@)),
    }
}

/// The public key that `p256` writes in PEM for a private key in PKCS#8 PEM.
pub uninterp spec fn p256_public_pem(pem: Seq<char>) -> Result<Seq<char>, Seq<char>>;

/// The public key that `p384` writes in PEM for a private key in PKCS#8 PEM.
pub uninterp spec fn p384_public_pem(pem: Seq<char>) -> Result<Seq<char>, Seq<char>>;

/// The public key, in PEM, of a private key in PEM.
pub open spec fn ec_public_pem(curve: Curve, pem: Seq<char>) -> Result<Seq<char>, Seq<char>> {
    match curve {
        Curve::P256 => p256_public_pem(pem),
        Curve::P384 => p384_public_pem(pem),
    }
}

/// The public key of a P-256 private key in PEM (`p256::ecdsa::SigningKey::from_pkcs8_pem`, then
/// `to_public_key_pem` with line feeds on its verifying key, which writes the label `PUBLIC KEY`), or
/// the message of the error.
#[verifier::external_body]
fn p256_export(pem: &str) -> (r: Result<String, String>)
    ensures
        text_or_fault(r) == p256_public_pem(pem@),
        r matches Ok(public) ==> is_public_pem(public@),
{
    let key = p256::ecdsa::SigningKey::from_pkcs8_pem(pem).map_err(|e| e.to_string())?;
    key.verifying_key().to_public_key_pem(LineEnding::LF).map_err(|e| e.to_string())
}

/// The public key of a P-384 private key in PEM (`p384::ecdsa::SigningKey::from_pkcs8_pem`, then
/// `to_public_key_pem` with line feeds on its verifying key, which writes the label `PUBLIC KEY`), or
/// the message of the error.
#[verifier::external_body]
fn p384_export(pem: &str) -> (r: Result<String, String>)
    ensures
        text_or_fault(r) == p384_public_pem(pem@),
        r matches Ok(public) ==> is_public_pem(public@),
{
    let key = p384::ecdsa::SigningKey::from_pkcs8_pem(pem).map_err(|e| e.to_string())?;
    key.verifying_key().to_public_key_pem(LineEnding::LF).map_err(|e| e.to_string())
}

/// The public key, in PEM, of a private key in PEM.
pub(crate) fn ec_export(curve: Curve, pem: &str) -> (r: Result<String, String>)
    ensures
        text_or_fault(r) == ec_public_pem(curve, pem@),
        r matches Ok(public) ==> is_public_pem(public@),
{
    match curve {
        Curve::P256 => p256_export(pem),
        Curve::P384 => p384_export(pem),
    }
}

/// The digest of a message that is signed with keys on the curve.
pub open spec fn curve_digest(curve: Curve, message: Seq<u8>) -> Seq<u8> {
    match curve {
        Curve::P256 => super::sha256(message),
        Curve::P384 => super::sha384(message),
    }
}

/// What `p256` says of a signature of a digest under a public key in PEM.
pub uninterp spec fn p256_verdict(pem: Seq<char>, digest: Seq<u8>, signature: Seq<u8>) -> Result<
    bool,
    EcFaultView,
>;

/// What `p384` says of a signature of a digest under a public key in PEM.
pub uninterp spec fn p384_verdict(pem: Seq<char>, digest: Seq<u8>, signature: Seq<u8>) -> Result<
    bool,
    EcFaultView,
>;

/// Whether the signature of the digest verifies under the public key.
pub open spec fn ec_verdict(
    curve: Curve,
    pem: Seq<char>,
    digest: Seq<u8>,
    signature: Seq<u8>,
) -> Result<bool, EcFaultView> {
    match curve {
        Curve::P256 => p256_verdict(pem, digest, signature),
        Curve::P384 => p384_verdict(pem, digest, signature),
    }
}

/// Whether the signature of the digest verifies under a P-256 public key in PEM
/// (`p256::ecdsa::VerifyingKey::from_public_key_pem`, `Signature::from_slice`, then
/// `verify_prehash`), or the message of the error that the key or the signature gives: a signature
/// has 64 bytes.
#[verifier::external_body]
fn p256_verify(pem: &str, digest: &[u8], signature: &[u8]) -> (r: Result<bool, EcFault>)
    ensures
        verdict_or_fault(r) == p256_verdict(pem@, digest@, signature@),
        r matches Ok(_) ==> signature@.len() == 64,
{
    let key = p256::ecdsa::VerifyingKey::from_public_key_pem(pem).map_err(
        |e| EcFault::Key(e.to_string()),
    )?;
    let sig = p256::ecdsa::Signature::from_slice(signature).map_err(
        |e| EcFault::Signature(e.to_string()),
    )?;
    Ok(key.verify_prehash(digest, &sig).is_ok())
}

/// Whether the signature of the digest verifies under a P-384 public key in PEM
/// (`p384::ecdsa::VerifyingKey::from_public_key_pem`, `Signature::from_slice`, then
/// `verify_prehash`), or the message of the error that the key or the signature gives: a signature
/// has 96 bytes.
#[verifier::external_body]
fn p384_verify(pem: &str, digest: &[u8], signature: &[u8]) -> (r: Result<bool, EcFault>)
    ensures
        verdict_or_fault(r) == p384_verdict(pem@, digest@, signature@),
        r matches Ok(_) ==> signature@.len() == 96,
{
    let key = p384::ecdsa::VerifyingKey::from_public_key_pem(pem).map_err(
        |e| EcFault::Key(e.to_string()),
    )?;
    let sig = p384::ecdsa::Signature::from_slice(signature).map_err(
        |e| EcFault::Signature(e.to_string()),
    )?;
    Ok(key.verify_prehash(digest, &sig).is_ok())
}

/// Whether the signature of the digest verifies under the public key.
pub(crate) fn ec_verify(curve: Curve, pem: &str, digest: &[u8], signature: &[u8]) -> (r: Result<
    bool,
    EcFault,
>)
    ensures
        verdict_or_fault(r) == ec_verdict(curve, pem@, digest@, signature@),
        r matches Ok(_) ==> signature@.len() == ec_signature_len(curve),
{
    match curve {
        Curve::P256 => p256_verify(pem, digest, signature),
        Curve::P384 => p384_verify(pem, digest, signature),
    }
}

/// How many bytes a signature has: two numbers of the curve's size.
pub open spec fn ec_signature_len(curve: Curve) -> nat {
    match curve {
        Curve::P256 => 64,
        Curve::P384 => 96,
    }
}

/// What `p256` signs with a private key in PKCS#8 DER: the nonce follows from the key and the digest.
pub uninterp spec fn p256_digest_signature(der: Seq<u8>, digest: Seq<u8>) -> Result<
    Seq<u8>,
    SignFaultView,
>;

/// What `p384` signs with a private key in PKCS#8 DER: the nonce follows from the key and the digest.
pub uninterp spec fn p384_digest_signature(der: Seq<u8>, digest: Seq<u8>) -> Result<
    Seq<u8>,
    SignFaultView,
>;

/// What comes of signing the digest with a private key in PKCS#8 DER.
pub open spec fn ec_digest_signature(curve: Curve, der: Seq<u8>, digest: Seq<u8>) -> Result<
    Seq<u8>,
    SignFaultView,
> {
    match curve {
        Curve::P256 => p256_digest_signature(der, digest),
        Curve::P384 => p384_digest_signature(der, digest),
    }
}

/// The signature of the digest verifies under the public key that is exported from the private key;
/// and what stands between that public key's boundaries is base64.
pub open spec fn verifies_under_export(
    curve: Curve,
    pem: Seq<char>,
    digest: Seq<u8>,
    signature: Seq<u8>,
) -> bool {
    ec_public_pem(curve, pem) matches Ok(public) && encoding::base64_bytes(
        encoding::pem_body(public),
    ) is Ok && ec_verdict(curve, public, digest, signature) == Ok::<bool, EcFaultView>(true)
}

/// Signs the digest with a P-256 private key in PKCS#8 DER
/// (`p256::ecdsa::SigningKey::from_pkcs8_der`, then `sign_prehash`), as two numbers at full length.
/// What comes of it has a name. The contract adds that a digest of fewer than 16 bytes is refused,
/// and that the signature verifies under the public key that is exported from the same PKCS#8 key in
/// PEM.
#[verifier::external_body]
fn p256_sign_digest(der: &[u8], digest: &[u8]) -> (r: Result<Vec<u8>, SignFault>)
    ensures
        signature_or_fault(r) == p256_digest_signature(der@, digest@),
        r matches Ok(sig) ==> sig@.len() == 64,
        r matches Ok(sig) ==> verifies_under_exports(Curve::P256, der@, digest@, sig@),
        r matches Ok(_) ==> digest@.len() >= 16,
{
    let key = p256::ecdsa::SigningKey::from_pkcs8_der(der).map_err(
        |e| SignFault::Key(e.to_string()),
    )?;
    let signed: Result<p256::ecdsa::Signature, _> = key.sign_prehash(digest);
    signed.map(|sig| sig.to_bytes().to_vec()).map_err(|e| SignFault::Sign(e.to_string()))
}

/// Signs the digest with a P-384 private key in PKCS#8 DER
/// (`p384::ecdsa::SigningKey::from_pkcs8_der`, then `sign_prehash`), as two numbers at full length.
/// What comes of it has a name. The contract adds that a digest of fewer than 24 bytes is refused,
/// and that the signature verifies under the public key that is exported from the same PKCS#8 key in
/// PEM.
#[verifier::external_body]
fn p384_sign_digest(der: &[u8], digest: &[u8]) -> (r: Result<Vec<u8>, SignFault>)
    ensures
        signature_or_fault(r) == p384_digest_signature(der@, digest@),
        r matches Ok(sig) ==> sig@.len() == 96,
        r matches Ok(sig) ==> verifies_under_exports(Curve::P384, der@, digest@, sig@),
        r matches Ok(_) ==> digest@.len() >= 24,
{
    let key = p384::ecdsa::SigningKey::from_pkcs8_der(der).map_err(
        |e| SignFault::Key(e.to_string()),
    )?;
    let signed: Result<p384::ecdsa::Signature, _> = key.sign_prehash(digest);
    signed.map(|sig| sig.to_bytes().to_vec()).map_err(|e| SignFault::Sign(e.to_string()))
}

/// How many bytes a digest must have to be signed: half as many as the curve's numbers.
pub open spec fn least_digest_len(curve: Curve) -> nat {
    match curve {
        Curve::P256 => 16,
        Curve::P384 => 24,
    }
}

/// Signs the digest with a private key in PKCS#8 DER.
pub(crate) fn ecdsa_sign_digest(curve: Curve, der: &[u8], digest: &[u8]) -> (r: Result<
    Vec<u8>,
    SignFault,
>)
    ensures
        signature_or_fault(r) == ec_digest_signature(curve, der@, digest@),
        r matches Ok(sig) ==> sig@.len() == ec_signature_len(curve),
        r matches Ok(sig) ==> verifies_under_exports(curve, der@, digest@, sig@),
        r matches Ok(_) ==> digest@.len() >= least_digest_len(curve),
{
    match curve {
        Curve::P256 => p256_sign_digest(der, digest),
        Curve::P384 => p384_sign_digest(der, digest),
    }
}

/// Why `ring::signature::EcdsaKeyPair::from_pkcs8` rejects a key, if it does.
pub uninterp spec fn ring_ecdsa_key_fault(curve: Curve, der: Seq<u8>) -> Option<Seq<char>>;

/// Does `ring::signature::EcdsaKeyPair::from_pkcs8` take the key? If not, the error says why: a fault
/// of the key, or of the random source, that it does not fail being left unsaid.
#[verifier::external_body]
pub(crate) fn ecdsa_key_taken(curve: Curve, der: &[u8]) -> (r: Result<(), String>)
    ensures
        r matches Ok(_) ==> ring_ecdsa_key_fault(curve, der@) is None,
        r matches Err(e) ==> ring_ecdsa_key_fault(curve, der@) == Some(e@) || (
        ring_ecdsa_key_fault(curve, der@) is None && e@ == "KeyRejected(\"RNG failed\")"@),
{
    let algorithm = match curve {
        Curve::P256 => &ring::signature::ECDSA_P256_SHA256_FIXED_SIGNING,
        Curve::P384 => &ring::signature::ECDSA_P384_SHA384_FIXED_SIGNING,
    };
    let taken = EcdsaKeyPair::from_pkcs8(algorithm, der, &SystemRandom::new());
    taken.map(|_| ()).map_err(|e| format!("{:?}", e))
}

/// What `ring::signature::EcdsaKeyPair::sign` computes with the nonce `k`.
pub uninterp spec fn ring_ecdsa_signature(
    curve: Curve,
    der: Seq<u8>,
    message: Seq<u8>,
    k: nat,
) -> Seq<u8>;

/// A document with a boundary at the head of a line, and nothing before it that counts:
/// each line there is empty or begins with five hyphens. The boundary's line holds no carriage return,
/// but for the one that ends it together with a line feed.
pub open spec fn is_plain(pem: Seq<char>) -> bool {
    exists|n: int|
        0 <= n <= pem.len() && #[trigger] text::has_prefix(pem.skip(n), "-----BEGIN "@) && (n == 0
            || pem[n - 1] == '\n') && encoding::pem_body(pem.take(n)).len() == 0
            && !encoding::first_line(pem.skip(n)).contains('\r')
}

/// A plain PEM document that holds the bytes in base64.
pub open spec fn holds_der(pem: Seq<char>, der: Seq<u8>) -> bool {
    &&& is_plain(pem)
    &&& encoding::base64_bytes(encoding::pem_body(pem)) == Ok::<Seq<u8>, Seq<char>>(der)
}

/// The signature of the digest verifies under each public key that is exported from a private key in
/// PEM whose content is `der`.
pub open spec fn verifies_under_exports(
    curve: Curve,
    der: Seq<u8>,
    digest: Seq<u8>,
    signature: Seq<u8>,
) -> bool {
    forall|pem: Seq<char>|
        (#[trigger] holds_der(pem, der)) && ec_public_pem(curve, pem) is Ok ==> verifies_under_export(
            curve,
            pem,
            digest,
            signature,
        )
}

/// The signature is one of the message, under some nonce. It has the curve's size, and verifies
/// under the key's public key.
pub open spec fn is_ecdsa_signature(
    curve: Curve,
    der: Seq<u8>,
    message: Seq<u8>,
    signature: Seq<u8>,
) -> bool {
    &&& exists|k: nat| signature == #[trigger] ring_ecdsa_signature(curve, der, message, k)
    &&& signature.len() == ec_signature_len(curve)
    &&& verifies_under_exports(curve, der, curve_digest(curve, message), signature)
}

/// Signs the message with a key in PKCS#8 DER (`ring::signature::EcdsaKeyPair::from_pkcs8`, then
/// `sign`, which digests the message itself, with SHA-256 on P-256 and SHA-384 on P-384, and writes
/// the two numbers at full length). Which keys are rejected, and what is signed with a given nonce,
/// have names. The contract adds that the signature verifies under the public key that `p256` or
/// `p384` exports from the same PKCS#8 key in PEM: they read the same private number, and verify the
/// same equation over the same digest. That the random source does not fail is left unsaid.
#[verifier::external_body]
pub(crate) fn ecdsa_sign(curve: Curve, der: &[u8], message: &[u8]) -> (r: Result<
    Vec<u8>,
    SignFault,
>)
    ensures
        r matches Ok(sig) ==> exists|k: nat|
            sig@ == #[trigger] ring_ecdsa_signature(curve, der@, message@, k),
        r matches Ok(sig) ==> sig@.len() == ec_signature_len(curve),
        r matches Ok(sig) ==> verifies_under_exports(
            curve,
            der@,
            curve_digest(curve, message@),
            sig@,
        ),
        r matches Ok(_) ==> ring_ecdsa_key_fault(curve, der@) is None,
        r matches Err(SignFault::Key(e)) ==> ring_ecdsa_key_fault(curve, der@) == Some(e@) || (
        ring_ecdsa_key_fault(curve, der@) is None && e@ == "KeyRejected(\"RNG failed\")"@),
        r matches Err(SignFault::Sign(e)) ==> ring_ecdsa_key_fault(curve, der@) is None && e@
            == "Unspecified"@,
{
    let algorithm = match curve {
        Curve::P256 => &ring::signature::ECDSA_P256_SHA256_FIXED_SIGNING,
        Curve::P384 => &ring::signature::ECDSA_P384_SHA384_FIXED_SIGNING,
    };
    let key = EcdsaKeyPair::from_pkcs8(algorithm, der, &SystemRandom::new()).map_err(
        |e| SignFault::Key(format!("{:?}", e)),
    )?;
    let signed = key.sign(&SystemRandom::new(), message);
    signed.map(|sig| sig.as_ref().to_vec()).map_err(|e| SignFault::Sign(format!("{:?}", e)))
}

// ---- HMAC ----

/// What `hmac` computes with SHA-256.
pub uninterp spec fn hmac_sha256(key: Seq<u8>, message: Seq<u8>) -> Seq<u8>;

/// What `hmac` computes with SHA-384.
pub uninterp spec fn hmac_sha384(key: Seq<u8>, message: Seq<u8>) -> Seq<u8>;

/// What `hmac` computes with SHA-512.
pub uninterp spec fn hmac_sha512(key: Seq<u8>, message: Seq<u8>) -> Seq<u8>;

/// The code of the message under the key, of 32 bytes (`hmac::Hmac<Sha256>`: `new_from_slice`, which
/// takes keys of every length, `update` and `finalize`).
#[verifier::external_body]
pub(crate) fn hmac_256(key: &[u8], message: &[u8]) -> (r: Result<Vec<u8>, String>)
    ensures
        r is Ok,
        r matches Ok(code) ==> code@ == hmac_sha256(key@, message@),
        r matches Ok(code) ==> code@.len() == 32,
{
    let mut mac = Hmac::<Sha256>::new_from_slice(key).map_err(|e| e.to_string())?;
    mac.update(message);
    Ok(mac.finalize().into_bytes().to_vec())
}

/// The code of the message under the key, of 48 bytes (`hmac::Hmac<Sha384>`: `new_from_slice`, which
/// takes keys of every length, `update` and `finalize`).
#[verifier::external_body]
pub(crate) fn hmac_384(key: &[u8], message: &[u8]) -> (r: Result<Vec<u8>, String>)
    ensures
        r is Ok,
        r matches Ok(code) ==> code@ == hmac_sha384(key@, message@),
        r matches Ok(code) ==> code@.len() == 48,
{
    let mut mac = Hmac::<Sha384>::new_from_slice(key).map_err(|e| e.to_string())?;
    mac.update(message);
    Ok(mac.finalize().into_bytes().to_vec())
}

/// The code of the message under the key, of 64 bytes (`hmac::Hmac<Sha512>`: `new_from_slice`, which
/// takes keys of every length, `update` and `finalize`).
#[verifier::external_body]
pub(crate) fn hmac_512(key: &[u8], message: &[u8]) -> (r: Result<Vec<u8>, String>)
    ensures
        r is Ok,
        r matches Ok(code) ==> code@ == hmac_sha512(key@, message@),
        r matches Ok(code) ==> code@.len() == 64,
{
    let mut mac = Hmac::<Sha512>::new_from_slice(key).map_err(|e| e.to_string())?;
    mac.update(message);
    Ok(mac.finalize().into_bytes().to_vec())
}

/// Is it the code of the message under the key (`hmac::Hmac<Sha256>`: `new_from_slice`, which takes
/// keys of every length, `update`, and `verify_slice`, which takes the whole code and nothing else)?
#[verifier::external_body]
pub(crate) fn hmac_256_verify(key: &[u8], message: &[u8], code: &[u8]) -> (r: Result<bool, String>)
    ensures
        r is Ok,
        r matches Ok(valid) ==> valid == (code@ == hmac_sha256(key@, message@)),
{
    let mut mac = Hmac::<Sha256>::new_from_slice(key).map_err(|e| e.to_string())?;
    mac.update(message);
    Ok(mac.verify_slice(code).is_ok())
}

/// Is it the code of the message under the key (`hmac::Hmac<Sha384>`: `new_from_slice`, which takes
/// keys of every length, `update`, and `verify_slice`, which takes the whole code and nothing else)?
#[verifier::external_body]
pub(crate) fn hmac_384_verify(key: &[u8], message: &[u8], code: &[u8]) -> (r: Result<bool, String>)
    ensures
        r is Ok,
        r matches Ok(valid) ==> valid == (code@ == hmac_sha384(key@, message@)),
{
    let mut mac = Hmac::<Sha384>::new_from_slice(key).map_err(|e| e.to_string())?;
    mac.update(message);
    Ok(mac.verify_slice(code).is_ok())
}

/// Is it the code of the message under the key (`hmac::Hmac<Sha512>`: `new_from_slice`, which takes
/// keys of every length, `update`, and `verify_slice`, which takes the whole code and nothing else)?
#[verifier::external_body]
pub(crate) fn hmac_512_verify(key: &[u8], message: &[u8], code: &[u8]) -> (r: Result<bool, String>)
    ensures
        r is Ok,
        r matches Ok(valid) ==> valid == (code@ == hmac_sha512(key@, message@)),
{
    let mut mac = Hmac::<Sha512>::new_from_slice(key).map_err(|e| e.to_string())?;
    mac.update(message);
    Ok(mac.verify_slice(code).is_ok())
}

// ---- New keys ----

/// The bytes are a private key in PEM from which a public key can be exported, and which signs.
pub open spec fn is_ec_key(curve: Curve, bytes: Seq<u8>) -> bool {
    let pem = decode_utf8(bytes);
    &&& valid_utf8(bytes)
    &&& ec_public_pem(curve, pem) matches Ok(public) && is_public_pem(public)
    &&& exists|der: Seq<u8>| #[trigger]
        holds_der(pem, der) && ring_ecdsa_key_fault(curve, der) is None
}

/// A new P-256 key in PKCS#8 PEM (`p256::ecdsa::SigningKey::random`, then `to_pkcs8_pem` with line
/// feeds). A key is always made: what is written has a fixed size and form. The key is random; of each
/// key the contract says that its public key can be exported again, and that `ring` accepts it: the
/// PKCS#8 document is of version one and holds the public key.
#[verifier::external_body]
pub(crate) fn p256_new_key() -> (r: Result<Vec<u8>, String>)
    ensures
        r is Ok,
        r matches Ok(pem) ==> is_ec_key(Curve::P256, pem@),
{
    let key = p256::ecdsa::SigningKey::random(&mut rand::thread_rng());
    let pem = key.to_pkcs8_pem(LineEnding::LF).map_err(|e| e.to_string())?;
    Ok(pem.as_bytes().to_vec())
}

/// A new P-384 key in PKCS#8 PEM (`p384::ecdsa::SigningKey::random`, then `to_pkcs8_pem` with line
/// feeds). A key is always made: what is written has a fixed size and form. The key is random; of each
/// key the contract says that its public key can be exported again, and that `ring` accepts it: the
/// PKCS#8 document is of version one and holds the public key.
#[verifier::external_body]
pub(crate) fn p384_new_key() -> (r: Result<Vec<u8>, String>)
    ensures
        r is Ok,
        r matches Ok(pem) ==> is_ec_key(Curve::P384, pem@),
{
    let key = p384::ecdsa::SigningKey::random(&mut rand::thread_rng());
    let pem = key.to_pkcs8_pem(LineEnding::LF).map_err(|e| e.to_string())?;
    Ok(pem.as_bytes().to_vec())
}

/// The bytes are an RSA private key in PEM, with a modulus of that many bits. `ring` takes it, and its
/// public key can be exported.
pub open spec fn is_rsa_key(bits: nat, bytes: Seq<u8>) -> bool {
    let pem = decode_utf8(bytes);
    &&& valid_utf8(bytes)
    &&& rsa_modulus_bits(pem) == bits
    &&& is_taken(pem)
    &&& rsa_public_pem(pem) matches Ok(public) && is_public_pem(public)
}

/// A new RSA key in PKCS#8 PEM (`rsa::RsaPrivateKey::new`, then `to_pkcs8_pem` with line feeds). A key
/// is always made: primes are drawn until they differ and the public exponent has an inverse, and what
/// is checked and written after that exists. That the second prime has an inverse modulo the first, so
/// that numbers which pass for different primes share no factor, is part of this. The key is random. Of
/// each key the contract says that its modulus has the bits that were asked for; that it can be read
/// again, and its public key exported; and that `ring` takes it: both primes have half the modulus's
/// bits, the public exponent is 65537, and the private one, its inverse, is at most that much shorter
/// than the modulus.
#[verifier::external_body]
pub(crate) fn rsa_new_key(bits: usize) -> (r: Result<Vec<u8>, String>)
    requires
        bits == 2048,
    ensures
        r is Ok,
        r matches Ok(pem) ==> is_rsa_key(bits as nat, pem@),
{
    let key = rsa::RsaPrivateKey::new(&mut rand::thread_rng(), bits).map_err(|e| e.to_string())?;
    let pem = key.to_pkcs8_pem(LineEnding::LF).map_err(|e| e.to_string())?;
    Ok(pem.as_bytes().to_vec())
}

/// Fills the bytes with random ones (`rand::thread_rng`, `fill_bytes`); their number stays.
#[verifier::external_body]
pub(crate) fn fill_random(bytes: &mut Vec<u8>)
    ensures
        final(bytes)@.len() == old(bytes)@.len(),
{
    rand::thread_rng().fill_bytes(bytes);
}

} // verus!
