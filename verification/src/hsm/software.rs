//! The software backend, which signs with keys in memory: for development and tests only.

use super::crypto;
use super::crypto::{
    ec_export, ec_verify, ecdsa_key_taken, ecdsa_sign, ecdsa_sign_digest, fill_random, hmac_256, hmac_256_verify,
    hmac_384, hmac_384_verify, hmac_512, hmac_512_verify, p256_new_key, p384_new_key, rsa_der,
    rsa_export, rsa_key_taken, rsa_new_key, rsa_public_pkcs1, rsa_sign, rsa_sign_digest, rsa_verify,
    rsa_verify_digest, Curve, EcFault, EcFaultView, RsaPemFault, RsaPemFaultView, RsaScheme,
    SignFault, SignFaultView,
};
use super::secret::SecretBytes;
use super::{
    compute_digest, HsmBackend, HsmError, HsmErrorView, HsmResult, KeyInfo, KeyInfoView, PublicKey, PublicKeyView,
    Signature,
};
use crate::config;
use crate::config::{Algorithm, KeyConfig, KeyConfigView, SoftwareHsmConfig};
use crate::encoding;
use crate::encoding::{base64_decode, base64_encode, pem_base64};
use crate::string_map;
use crate::string_map::StringMap;
use crate::text;
use crate::text::{join2, join3, trim_end, utf8_text};
use vstd::prelude::*;
use vstd::utf8::*;

verus! {

// ---- What the backend answers ----

/// What an answer of bytes says.
pub open spec fn bytes_answer(r: HsmResult<Vec<u8>>) -> Result<Seq<u8>, HsmErrorView> {
    match r {
        Ok(bytes) => Ok(bytes@),
        Err(e) => Err(e@),
    }
}

/// The RSA scheme of an algorithm.
pub open spec fn rsa_scheme_of(algorithm: Algorithm) -> Option<RsaScheme> {
    match algorithm {
        Algorithm::Rs256 => Some(RsaScheme::Pkcs1Sha256),
        Algorithm::Rs384 => Some(RsaScheme::Pkcs1Sha384),
        Algorithm::Rs512 => Some(RsaScheme::Pkcs1Sha512),
        Algorithm::Ps256 => Some(RsaScheme::PssSha256),
        Algorithm::Ps384 => Some(RsaScheme::PssSha384),
        Algorithm::Ps512 => Some(RsaScheme::PssSha512),
        _ => None,
    }
}

/// The curve of an algorithm.
pub open spec fn curve_of(algorithm: Algorithm) -> Option<Curve> {
    match algorithm {
        Algorithm::Es256 => Some(Curve::P256),
        Algorithm::Es384 => Some(Curve::P384),
        _ => None,
    }
}

/// What kind of key an algorithm uses, and of what size.
pub open spec fn key_label(algorithm: Algorithm) -> Seq<char> {
    match algorithm {
        Algorithm::Rs256 | Algorithm::Ps256 => "RSA-2048"@,
        Algorithm::Rs384 | Algorithm::Ps384 => "RSA-3072"@,
        Algorithm::Rs512 | Algorithm::Ps512 => "RSA-4096"@,
        Algorithm::Es256 => "EC-P256"@,
        Algorithm::Es384 => "EC-P384"@,
        Algorithm::Hs256 => "HMAC-256"@,
        Algorithm::Hs384 => "HMAC-384"@,
        Algorithm::Hs512 => "HMAC-512"@,
    }
}

/// The backend's answer, given what came of reading an RSA private key.
pub open spec fn rsa_der_answer_of(der: Result<Seq<u8>, RsaPemFaultView>) -> Result<
    Seq<u8>,
    HsmErrorView,
> {
    match der {
        Ok(der) => Ok(der),
        Err(RsaPemFaultView::Decode(e)) => Err(
            HsmErrorView::SigningFailed("RSA PEM decode: "@ + e),
        ),
        Err(RsaPemFaultView::Encode(e)) => Err(
            HsmErrorView::SigningFailed("RSA DER encode: "@ + e),
        ),
    }
}

/// The DER form of an RSA private key in PEM, or why there is none.
pub open spec fn rsa_private_der(pem: Seq<char>) -> Result<Seq<u8>, HsmErrorView> {
    rsa_der_answer_of(crypto::rsa_pkcs8(pem))
}

/// The backend's answer, given what came of reading an elliptic-curve private key's base64.
pub open spec fn ecdsa_der_answer_of(der: Result<Seq<u8>, Seq<char>>) -> Result<
    Seq<u8>,
    HsmErrorView,
> {
    match der {
        Ok(der) => Ok(der),
        Err(e) => Err(HsmErrorView::SigningFailed("ECDSA DER decode: "@ + e)),
    }
}

/// The bytes that an elliptic-curve private key in PEM holds, or why it holds none.
pub open spec fn ecdsa_private_der(pem: Seq<char>) -> Result<Seq<u8>, HsmErrorView> {
    ecdsa_der_answer_of(encoding::base64_bytes(encoding::pem_body(pem)))
}

/// The backend's answer, given what came of reading a public key's base64.
pub open spec fn spki_der_answer_of(der: Result<Seq<u8>, Seq<char>>) -> Result<
    Seq<u8>,
    HsmErrorView,
> {
    match der {
        Ok(der) => Ok(der),
        Err(e) => Err(HsmErrorView::VerificationFailed("SPKI decode: "@ + e)),
    }
}

/// The bytes that a public key in PEM holds, or why it holds none.
pub open spec fn public_der(pem: Seq<char>) -> Result<Seq<u8>, HsmErrorView> {
    spki_der_answer_of(encoding::base64_bytes(encoding::pem_body(pem)))
}

/// The backend's answer, given what came of signing with an RSA key.
pub open spec fn rsa_answer_of(signed: Result<Seq<u8>, SignFaultView>) -> Result<
    Seq<u8>,
    HsmErrorView,
> {
    match signed {
        Ok(sig) => Ok(sig),
        Err(SignFaultView::Key(e)) => Err(HsmErrorView::SigningFailed("RsaKeyPair: "@ + e)),
        Err(SignFaultView::Sign(e)) => Err(HsmErrorView::SigningFailed(e)),
    }
}

/// The backend's answer, given what came of signing with a key that is in order.
pub open spec fn signing_answer_of(signed: Result<Seq<u8>, Seq<char>>) -> Result<
    Seq<u8>,
    HsmErrorView,
> {
    match signed {
        Ok(sig) => Ok(sig),
        Err(e) => Err(HsmErrorView::SigningFailed(e)),
    }
}

/// The backend's answer, given what came of signing with an elliptic-curve key.
pub open spec fn ecdsa_answer_of(curve: Curve, signed: Result<Seq<u8>, SignFaultView>) -> Result<
    Seq<u8>,
    HsmErrorView,
> {
    match signed {
        Ok(sig) => Ok(sig),
        Err(SignFaultView::Key(e)) => Err(
            HsmErrorView::SigningFailed(
                (match curve {
                    Curve::P256 => "EC P256: "@,
                    Curve::P384 => "EC P384: "@,
                }) + e,
            ),
        ),
        Err(SignFaultView::Sign(e)) => Err(HsmErrorView::SigningFailed(e)),
    }
}

/// May this be the answer to signing with an RSA private key in PEM that has the PKCS#8 form `der`,
/// and that is accepted? A PKCS#1 signature is determined; one of PSS is under some salt.
pub open spec fn rsa_der_signs(
    scheme: RsaScheme,
    der: Seq<u8>,
    payload: Seq<u8>,
    answer: Result<Seq<u8>, HsmErrorView>,
) -> bool {
    &&& if crypto::salt_len(scheme) == 0 {
        answer == match crypto::ring_rsa_signature(scheme, der, payload, Seq::empty()) {
            Some(sig) => Ok(sig),
            None => Err(HsmErrorView::SigningFailed("Unspecified"@)),
        }
    } else {
        match answer {
            Ok(sig) => crypto::is_rsa_signature(scheme, der, payload, sig),
            Err(e) => e == HsmErrorView::SigningFailed("Unspecified"@),
        }
    }
    &&& answer matches Ok(sig) ==> crypto::accepted_under_exports(scheme, der, payload, sig)
}

/// May this be the answer to signing with an RSA private key in PEM?
pub open spec fn rsa_signs(
    key: Seq<u8>,
    algorithm: Algorithm,
    payload: Seq<u8>,
    answer: Result<Seq<u8>, HsmErrorView>,
) -> bool {
    if !valid_utf8(key) {
        answer == Err::<Seq<u8>, HsmErrorView>(HsmErrorView::SigningFailed(text::utf8_fault(key)))
    } else {
        match rsa_private_der(decode_utf8(key)) {
            Err(e) => answer == Err::<Seq<u8>, HsmErrorView>(e),
            Ok(der) => match crypto::ring_rsa_key_fault(der) {
                Some(fault) => answer == rsa_answer_of(Err(SignFaultView::Key(fault))),
                None => rsa_der_signs(rsa_scheme_of(algorithm)->0, der, payload, answer),
            },
        }
    }
}

/// May this be the answer to signing a digest with an RSA private key in PEM that is accepted? A
/// digest of the wrong length is refused.
pub open spec fn rsa_pem_signs_digest(
    scheme: RsaScheme,
    pem: Seq<char>,
    digest: Seq<u8>,
    answer: Result<Seq<u8>, HsmErrorView>,
) -> bool {
    if digest.len() != crypto::scheme_digest_len(scheme) {
        answer == Err::<Seq<u8>, HsmErrorView>(HsmErrorView::SigningFailed("input must be hashed"@))
    } else {
        &&& rsa_answers_digest(scheme, pem, digest, answer)
        &&& answer matches Ok(sig) ==> sig.len() == crypto::rsa_signature_len(pem) && sig.len()
            >= 256 && crypto::export_accepts_digest(scheme, pem, digest, sig)
    }
}

/// The answer follows from what came of signing the digest, which a salt determines, if there is one.
pub open spec fn rsa_answers_digest(
    scheme: RsaScheme,
    pem: Seq<char>,
    digest: Seq<u8>,
    answer: Result<Seq<u8>, HsmErrorView>,
) -> bool {
    if crypto::salt_len(scheme) == 0 {
        answer == signing_answer_of(
            crypto::rsa_digest_signature(scheme, pem, digest, Seq::empty()),
        )
    } else {
        exists|salt: Seq<u8>|
            salt.len() == crypto::salt_len(scheme) && answer == signing_answer_of(
                #[trigger] crypto::rsa_digest_signature(scheme, pem, digest, salt),
            )
    }
}

/// May this be the answer to signing a digest with an RSA private key in PEM? The keys that sign
/// digests are those that sign messages.
pub open spec fn rsa_signs_digest(
    key: Seq<u8>,
    algorithm: Algorithm,
    digest: Seq<u8>,
    answer: Result<Seq<u8>, HsmErrorView>,
) -> bool {
    if !valid_utf8(key) {
        answer == Err::<Seq<u8>, HsmErrorView>(HsmErrorView::SigningFailed(text::utf8_fault(key)))
    } else {
        match rsa_private_der(decode_utf8(key)) {
            Err(e) => answer == Err::<Seq<u8>, HsmErrorView>(e),
            Ok(der) => match crypto::ring_rsa_key_fault(der) {
                Some(fault) => answer == rsa_answer_of(Err(SignFaultView::Key(fault))),
                None => rsa_pem_signs_digest(
                    rsa_scheme_of(algorithm)->0,
                    decode_utf8(key),
                    digest,
                    answer,
                ),
            },
        }
    }
}

/// May this be the answer to signing with an elliptic-curve private key in PEM?
pub open spec fn ecdsa_signs(
    key: Seq<u8>,
    algorithm: Algorithm,
    payload: Seq<u8>,
    answer: Result<Seq<u8>, HsmErrorView>,
) -> bool {
    if !valid_utf8(key) {
        answer == Err::<Seq<u8>, HsmErrorView>(HsmErrorView::SigningFailed(text::utf8_fault(key)))
    } else {
        match ecdsa_private_der(decode_utf8(key)) {
            Err(e) => answer == Err::<Seq<u8>, HsmErrorView>(e),
            Ok(der) => match curve_of(algorithm) {
                None => answer == Err::<Seq<u8>, HsmErrorView>(
                    HsmErrorView::AlgorithmNotSupported {
                        key_id: "?"@,
                        algorithm: config::algorithm_name(algorithm),
                    },
                ),
                Some(curve) => match crypto::ring_ecdsa_key_fault(curve, der) {
                    Some(fault) => answer == ecdsa_answer_of(
                        curve,
                        Err(SignFaultView::Key(fault)),
                    ),
                    None => match answer {
                        Ok(sig) => crypto::is_ecdsa_signature(curve, der, payload, sig),
                        Err(_) => no_randomness(curve, answer),
                    },
                },
            },
        }
    }
}

/// May this be the answer to signing a digest with an elliptic-curve private key in PEM that holds
/// `der`, and that is accepted? The signature is determined. A digest that is too short is refused.
pub open spec fn ecdsa_der_signs_digest(
    curve: Curve,
    der: Seq<u8>,
    digest: Seq<u8>,
    answer: Result<Seq<u8>, HsmErrorView>,
) -> bool {
    &&& answer == ecdsa_answer_of(curve, crypto::ec_digest_signature(curve, der, digest))
    &&& answer matches Ok(sig) ==> sig.len() == crypto::ec_signature_len(curve) && digest.len()
        >= crypto::least_digest_len(curve) && crypto::verifies_under_exports(
        curve,
        der,
        digest,
        sig,
    )
}

/// May this be the answer to signing a digest with an elliptic-curve private key in PEM? The keys
/// that sign digests are those that sign messages.
pub open spec fn ecdsa_signs_digest(
    key: Seq<u8>,
    algorithm: Algorithm,
    digest: Seq<u8>,
    answer: Result<Seq<u8>, HsmErrorView>,
) -> bool {
    if !valid_utf8(key) {
        answer == Err::<Seq<u8>, HsmErrorView>(HsmErrorView::SigningFailed(text::utf8_fault(key)))
    } else {
        match ecdsa_private_der(decode_utf8(key)) {
            Err(e) => answer == Err::<Seq<u8>, HsmErrorView>(e),
            Ok(der) => match curve_of(algorithm) {
                None => answer == Err::<Seq<u8>, HsmErrorView>(
                    HsmErrorView::AlgorithmNotSupported {
                        key_id: "?"@,
                        algorithm: config::algorithm_name(algorithm),
                    },
                ),
                Some(curve) => match crypto::ring_ecdsa_key_fault(curve, der) {
                    Some(fault) => answer == ecdsa_answer_of(
                        curve,
                        Err(SignFaultView::Key(fault)),
                    ),
                    None => no_randomness_for_key(curve, answer) || ecdsa_der_signs_digest(
                        curve,
                        der,
                        digest,
                        answer,
                    ),
                },
            },
        }
    }
}

/// The answer when the random source fails as the key is taken in.
pub open spec fn no_randomness_for_key(
    curve: Curve,
    answer: Result<Seq<u8>, HsmErrorView>,
) -> bool {
    answer == ecdsa_answer_of(curve, Err(SignFaultView::Key("KeyRejected(\"RNG failed\")"@)))
}

/// The answer when the random source fails: as the key is taken in, or as the nonce is drawn.
pub open spec fn no_randomness(curve: Curve, answer: Result<Seq<u8>, HsmErrorView>) -> bool {
    ||| no_randomness_for_key(curve, answer)
    ||| answer == ecdsa_answer_of(curve, Err(SignFaultView::Sign("Unspecified"@)))
}

/// The code of a message under a shared secret.
pub open spec fn hmac_code(algorithm: Algorithm, secret: Seq<u8>, message: Seq<u8>) -> Seq<u8> {
    match algorithm {
        Algorithm::Hs256 => crypto::hmac_sha256(secret, message),
        Algorithm::Hs384 => crypto::hmac_sha384(secret, message),
        _ => crypto::hmac_sha512(secret, message),
    }
}

/// The backend's answer, given what came of checking a signature under an elliptic-curve key.
pub open spec fn verdict_answer_of(verdict: Result<bool, EcFaultView>) -> Result<
    bool,
    HsmErrorView,
> {
    match verdict {
        Ok(valid) => Ok(valid),
        Err(EcFaultView::Key(e)) => Err(HsmErrorView::VerificationFailed("key: "@ + e)),
        Err(EcFaultView::Signature(e)) => Err(HsmErrorView::VerificationFailed("sig: "@ + e)),
    }
}

/// The PKCS#1 form of an RSA public key: what the SPKI form holds, or the bytes themselves where they
/// are no SPKI.
pub open spec fn bare_rsa_key(der: Seq<u8>) -> Seq<u8> {
    match crypto::rsa_pkcs1(der) {
        Some(key) => key,
        None => der,
    }
}

/// Is it a signature under an RSA public key in DER: of the payload, or of the digest that the payload
/// is? Under keys of fewer than 256 bytes, as under bytes that are no key, nothing is.
pub open spec fn rsa_verifies(
    scheme: RsaScheme,
    der: Seq<u8>,
    payload: Seq<u8>,
    signature: Seq<u8>,
    prehashed: bool,
) -> bool {
    if prehashed {
        signature.len() >= 256 && crypto::rsa_accepts_digest(
            scheme,
            bare_rsa_key(der),
            payload,
            signature,
        )
    } else {
        crypto::ring_rsa_accepts(scheme, bare_rsa_key(der), payload, signature)
    }
}

/// What an elliptic-curve key signs: the payload's digest, or the payload where it is a digest.
pub open spec fn to_be_signed(algorithm: Algorithm, payload: Seq<u8>, prehashed: bool) -> Seq<u8> {
    if prehashed {
        payload
    } else {
        super::digest(algorithm, payload)
    }
}

/// Whether the signature verifies under a public key in PEM: of the payload, or of the digest that
/// the payload is.
pub open spec fn verification(
    key: Seq<u8>,
    algorithm: Algorithm,
    payload: Seq<u8>,
    signature: Seq<u8>,
    prehashed: bool,
) -> Result<bool, HsmErrorView> {
    if !valid_utf8(key) {
        Err(HsmErrorView::VerificationFailed(text::utf8_fault(key)))
    } else {
        match public_der(decode_utf8(key)) {
            Err(e) => Err(e),
            Ok(der) => match rsa_scheme_of(algorithm) {
                Some(scheme) => Ok(rsa_verifies(scheme, der, payload, signature, prehashed)),
                None => match curve_of(algorithm) {
                    Some(curve) => verdict_answer_of(
                        crypto::ec_verdict(
                            curve,
                            decode_utf8(key),
                            to_be_signed(algorithm, payload, prehashed),
                            signature,
                        ),
                    ),
                    None => Err(
                        HsmErrorView::VerificationFailed(
                            "HMAC verify requires the secret key — use the /verify endpoint instead"@,
                        ),
                    ),
                },
            },
        }
    }
}

/// The public key, in PEM, of a private key; of a shared secret, the secret itself.
pub open spec fn exported(key: Seq<u8>, algorithm: Algorithm) -> Result<Seq<char>, HsmErrorView> {
    if !valid_utf8(key) {
        Err(HsmErrorView::BackendError(text::utf8_fault(key)))
    } else {
        let pem = match rsa_scheme_of(algorithm) {
            Some(_) => crypto::rsa_public_pem(decode_utf8(key)),
            None => match curve_of(algorithm) {
                Some(curve) => crypto::ec_public_pem(curve, decode_utf8(key)),
                None => Ok(
                    "-----BEGIN SYMMETRIC KEY-----\n"@ + encoding::base64_text(key)
                        + "\n-----END SYMMETRIC KEY-----\n"@,
                ),
            },
        };
        export_answer_of(pem)
    }
}

/// The backend's answer, given what came of exporting a public key.
pub open spec fn export_answer_of(pem: Result<Seq<char>, Seq<char>>) -> Result<
    Seq<char>,
    HsmErrorView,
> {
    match pem {
        Ok(pem) => Ok(pem),
        Err(e) => Err(HsmErrorView::BackendError(e)),
    }
}

// ---- Kinds of keys ----

/// The RSA scheme of an algorithm.
pub fn rsa_scheme(algorithm: Algorithm) -> (r: Option<RsaScheme>)
    ensures
        r == rsa_scheme_of(algorithm),
{
    match algorithm {
        Algorithm::Rs256 => Some(RsaScheme::Pkcs1Sha256),
        Algorithm::Rs384 => Some(RsaScheme::Pkcs1Sha384),
        Algorithm::Rs512 => Some(RsaScheme::Pkcs1Sha512),
        Algorithm::Ps256 => Some(RsaScheme::PssSha256),
        Algorithm::Ps384 => Some(RsaScheme::PssSha384),
        Algorithm::Ps512 => Some(RsaScheme::PssSha512),
        _ => None,
    }
}

/// The curve of an algorithm.
pub fn curve(algorithm: Algorithm) -> (r: Option<Curve>)
    ensures
        r == curve_of(algorithm),
{
    match algorithm {
        Algorithm::Es256 => Some(Curve::P256),
        Algorithm::Es384 => Some(Curve::P384),
        _ => None,
    }
}

/// What kind of key an algorithm uses, and of what size.
pub fn key_type_label(algorithm: Algorithm) -> (r: String)
    ensures
        r@ == key_label(algorithm),
{
    let label = match algorithm {
        Algorithm::Rs256 | Algorithm::Ps256 => "RSA-2048",
        Algorithm::Rs384 | Algorithm::Ps384 => "RSA-3072",
        Algorithm::Rs512 | Algorithm::Ps512 => "RSA-4096",
        Algorithm::Es256 => "EC-P256",
        Algorithm::Es384 => "EC-P384",
        Algorithm::Hs256 => "HMAC-256",
        Algorithm::Hs384 => "HMAC-384",
        Algorithm::Hs512 => "HMAC-512",
    };
    label.to_owned()
}

// ---- Signing ----

/// The backend's answer, given what came of reading an RSA private key.
pub fn rsa_der_answer(der: Result<Vec<u8>, RsaPemFault>) -> (r: HsmResult<Vec<u8>>)
    ensures
        bytes_answer(r) == rsa_der_answer_of(crypto::der_or_fault(der)),
{
    match der {
        Ok(der) => Ok(der),
        Err(RsaPemFault::Decode(e)) => Err(
            HsmError::SigningFailed(join2("RSA PEM decode: ", e.as_str())),
        ),
        Err(RsaPemFault::Encode(e)) => Err(
            HsmError::SigningFailed(join2("RSA DER encode: ", e.as_str())),
        ),
    }
}

/// The DER form of an RSA private key in PEM.
pub fn rsa_pem_to_pkcs8_der(pem: &str) -> (r: HsmResult<Vec<u8>>)
    ensures
        bytes_answer(r) == rsa_private_der(pem@),
{
    rsa_der_answer(rsa_der(pem))
}

/// The backend's answer, given what came of reading an elliptic-curve private key's base64.
pub fn ecdsa_der_answer(der: Result<Vec<u8>, String>) -> (r: HsmResult<Vec<u8>>)
    ensures
        bytes_answer(r) == ecdsa_der_answer_of(encoding::bytes_or_fault(der)),
{
    match der {
        Ok(der) => Ok(der),
        Err(e) => Err(HsmError::SigningFailed(join2("ECDSA DER decode: ", e.as_str()))),
    }
}

/// The bytes that an elliptic-curve private key in PEM holds.
pub fn ecdsa_pem_to_pkcs8_der(pem: &str) -> (r: HsmResult<Vec<u8>>)
    ensures
        bytes_answer(r) == ecdsa_private_der(pem@),
{
    ecdsa_der_answer(base64_decode(pem_base64(pem).as_str()))
}

/// The backend's answer, given what came of signing with an RSA key.
pub fn rsa_answer(signed: Result<Vec<u8>, SignFault>) -> (r: HsmResult<Vec<u8>>)
    ensures
        bytes_answer(r) == rsa_answer_of(crypto::signature_or_fault(signed)),
{
    match signed {
        Ok(sig) => Ok(sig),
        Err(SignFault::Key(e)) => Err(HsmError::SigningFailed(join2("RsaKeyPair: ", e.as_str()))),
        Err(SignFault::Sign(e)) => Err(HsmError::SigningFailed(e)),
    }
}

/// The backend's answer, given what came of signing with a key that is in order.
pub fn signing_answer(signed: Result<Vec<u8>, String>) -> (r: HsmResult<Vec<u8>>)
    ensures
        bytes_answer(r) == signing_answer_of(encoding::bytes_or_fault(signed)),
{
    match signed {
        Ok(sig) => Ok(sig),
        Err(e) => Err(HsmError::SigningFailed(e)),
    }
}

/// The backend's answer, given what came of signing with an elliptic-curve key.
pub fn ecdsa_answer(curve: Curve, signed: Result<Vec<u8>, SignFault>) -> (r: HsmResult<Vec<u8>>)
    ensures
        bytes_answer(r) == ecdsa_answer_of(curve, crypto::signature_or_fault(signed)),
{
    match signed {
        Ok(sig) => Ok(sig),
        Err(SignFault::Key(e)) => {
            let context = match curve {
                Curve::P256 => "EC P256: ",
                Curve::P384 => "EC P384: ",
            };
            Err(HsmError::SigningFailed(join2(context, e.as_str())))
        },
        Err(SignFault::Sign(e)) => Err(HsmError::SigningFailed(e)),
    }
}

/// Signs the payload, which is digested on the way, with an RSA private key in PEM.
pub fn sign_rsa(pem: &[u8], algorithm: Algorithm, payload: &[u8]) -> (r: HsmResult<Vec<u8>>)
    requires
        algorithm.is_rsa(),
    ensures
        rsa_signs(pem@, algorithm, payload@, bytes_answer(r)),
{
    let text = match utf8_text(pem) {
        Ok(text) => text,
        Err(e) => return Err(HsmError::SigningFailed(e)),
    };
    let der = match rsa_pem_to_pkcs8_der(text) {
        Ok(der) => der,
        Err(e) => return Err(e),
    };
    let scheme = match rsa_scheme(algorithm) {
        Some(scheme) => scheme,
        None => vstd::pervasive::unreached(),
    };
    let signed = rsa_sign(scheme, der.as_slice(), payload);
    proof {
        if let Ok(sig) = &signed {
            let salt = choose|salt: Seq<u8>|
                salt.len() == crypto::salt_len(scheme) && #[trigger] crypto::ring_rsa_signature(
                    scheme,
                    der@,
                    payload@,
                    salt,
                ) == Some(sig@);
            if crypto::salt_len(scheme) == 0 {
                assert(salt =~= Seq::empty());
            }
        }
    }
    rsa_answer(signed)
}

/// Signs the digest with an RSA private key in PEM.
pub fn sign_rsa_digest(pem: &[u8], algorithm: Algorithm, digest: &[u8]) -> (r: HsmResult<Vec<u8>>)
    requires
        algorithm.is_rsa(),
    ensures
        rsa_signs_digest(pem@, algorithm, digest@, bytes_answer(r)),
{
    let text = match utf8_text(pem) {
        Ok(text) => text,
        Err(e) => return Err(HsmError::SigningFailed(e)),
    };
    let der = match rsa_pem_to_pkcs8_der(text) {
        Ok(der) => der,
        Err(e) => return Err(e),
    };
    match rsa_key_taken(der.as_slice()) {
        Ok(_) => {},
        Err(e) => return rsa_answer(Err(SignFault::Key(e))),
    }
    let scheme = match rsa_scheme(algorithm) {
        Some(scheme) => scheme,
        None => vstd::pervasive::unreached(),
    };
    let signed = rsa_sign_digest(scheme, text, digest);
    proof {
        if crypto::salt_len(scheme) == 0 {
            let outcome = encoding::bytes_or_fault(signed);
            let salt = choose|salt: Seq<u8>|
                salt.len() == 0 && outcome == #[trigger] crypto::rsa_digest_signature(
                    scheme,
                    text@,
                    digest@,
                    salt,
                );
            assert(salt =~= Seq::empty());
        }
    }
    signing_answer(signed)
}

/// Signs the payload, which is digested on the way, with an elliptic-curve private key in PEM.
pub fn sign_ecdsa(pem: &[u8], algorithm: Algorithm, payload: &[u8]) -> (r: HsmResult<Vec<u8>>)
    ensures
        ecdsa_signs(pem@, algorithm, payload@, bytes_answer(r)),
{
    let text = match utf8_text(pem) {
        Ok(text) => text,
        Err(e) => return Err(HsmError::SigningFailed(e)),
    };
    let der = match ecdsa_pem_to_pkcs8_der(text) {
        Ok(der) => der,
        Err(e) => return Err(e),
    };
    let on = match curve(algorithm) {
        Some(on) => on,
        None => return Err(
            HsmError::AlgorithmNotSupported {
                key_id: "?".to_owned(),
                algorithm: algorithm.to_string(),
            },
        ),
    };
    let signed = ecdsa_sign(on, der.as_slice(), payload);
    ecdsa_answer(on, signed)
}

/// Signs the digest with an elliptic-curve private key in PEM.
pub fn sign_ecdsa_digest(pem: &[u8], algorithm: Algorithm, digest: &[u8]) -> (r: HsmResult<Vec<u8>>)
    ensures
        ecdsa_signs_digest(pem@, algorithm, digest@, bytes_answer(r)),
{
    let text = match utf8_text(pem) {
        Ok(text) => text,
        Err(e) => return Err(HsmError::SigningFailed(e)),
    };
    let der = match ecdsa_pem_to_pkcs8_der(text) {
        Ok(der) => der,
        Err(e) => return Err(e),
    };
    let on = match curve(algorithm) {
        Some(on) => on,
        None => return Err(
            HsmError::AlgorithmNotSupported {
                key_id: "?".to_owned(),
                algorithm: algorithm.to_string(),
            },
        ),
    };
    match ecdsa_key_taken(on, der.as_slice()) {
        Ok(_) => {},
        Err(e) => return ecdsa_answer(on, Err(SignFault::Key(e))),
    }
    let signed = ecdsa_sign_digest(on, der.as_slice(), digest);
    ecdsa_answer(on, signed)
}

/// The code of the payload under the shared secret.
pub fn sign_hmac(secret: &[u8], algorithm: Algorithm, payload: &[u8]) -> (r: HsmResult<Vec<u8>>)
    requires
        algorithm.is_hmac(),
    ensures
        bytes_answer(r) == Ok::<Seq<u8>, HsmErrorView>(hmac_code(algorithm, secret@, payload@)),
        r matches Ok(code) ==> code@.len() == super::digest_len(algorithm),
{
    let code = match algorithm {
        Algorithm::Hs256 => hmac_256(secret, payload),
        Algorithm::Hs384 => hmac_384(secret, payload),
        _ => hmac_512(secret, payload),
    };
    match code {
        Ok(code) => Ok(code),
        Err(e) => Err(HsmError::SigningFailed(e)),
    }
}

// ---- Verifying ----

/// The backend's answer, given what came of reading a public key's base64.
pub fn spki_der_answer(der: Result<Vec<u8>, String>) -> (r: HsmResult<Vec<u8>>)
    ensures
        bytes_answer(r) == spki_der_answer_of(encoding::bytes_or_fault(der)),
{
    match der {
        Ok(der) => Ok(der),
        Err(e) => Err(HsmError::VerificationFailed(join2("SPKI decode: ", e.as_str()))),
    }
}

/// The bytes that a public key in PEM holds.
pub fn spki_pem_to_der(pem: &str) -> (r: HsmResult<Vec<u8>>)
    ensures
        bytes_answer(r) == public_der(pem@),
{
    spki_der_answer(base64_decode(pem_base64(pem).as_str()))
}

/// The backend's answer, given what came of checking a signature under an elliptic-curve key.
pub fn verdict_answer(verdict: Result<bool, EcFault>) -> (r: HsmResult<bool>)
    ensures
        super::answer_view(r) == verdict_answer_of(crypto::verdict_or_fault(verdict)),
{
    match verdict {
        Ok(valid) => Ok(valid),
        Err(EcFault::Key(e)) => Err(HsmError::VerificationFailed(join2("key: ", e.as_str()))),
        Err(EcFault::Signature(e)) => Err(HsmError::VerificationFailed(join2("sig: ", e.as_str()))),
    }
}

/// Is it a signature under the RSA public key in DER: of the payload, or of the digest that the payload
/// is?
pub fn verify_rsa(
    scheme: RsaScheme,
    der: &[u8],
    payload: &[u8],
    signature: &[u8],
    prehashed: bool,
) -> (r: bool)
    ensures
        r == rsa_verifies(scheme, der@, payload@, signature@, prehashed),
{
    let held = rsa_public_pkcs1(der);
    let key = match &held {
        Some(key) => key.as_slice(),
        None => der,
    };
    if prehashed {
        signature.len() >= 256 && rsa_verify_digest(scheme, key, payload, signature)
    } else {
        rsa_verify(scheme, key, payload, signature)
    }
}

/// Is it the code of the payload under the shared secret?
pub fn verify_hmac(secret: &[u8], algorithm: Algorithm, payload: &[u8], code: &[u8]) -> (r:
    HsmResult<bool>)
    requires
        algorithm.is_hmac(),
    ensures
        super::answer_view(r) == Ok::<bool, HsmErrorView>(
            code@ == hmac_code(algorithm, secret@, payload@),
        ),
{
    let valid = match algorithm {
        Algorithm::Hs256 => hmac_256_verify(secret, payload, code),
        Algorithm::Hs384 => hmac_384_verify(secret, payload, code),
        _ => hmac_512_verify(secret, payload, code),
    };
    match valid {
        Ok(valid) => Ok(valid),
        Err(e) => Err(HsmError::VerificationFailed(e)),
    }
}

/// The signature has another length than elliptic-curve signatures of the algorithm have.
pub open spec fn has_other_length(algorithm: Algorithm, signature: Seq<u8>) -> bool {
    curve_of(algorithm) matches Some(curve) && signature.len() != crypto::ec_signature_len(curve)
}

/// Is it a signature under the public key in PEM: of the payload, or of the digest that the payload
/// is?
pub fn verify_with_public_key(
    pem: &[u8],
    algorithm: Algorithm,
    payload: &[u8],
    signature: &[u8],
    prehashed: bool,
) -> (r: HsmResult<bool>)
    ensures
        super::answer_view(r) == verification(pem@, algorithm, payload@, signature@, prehashed),
        has_other_length(algorithm, signature@) ==> r is Err,
{
    let text = match utf8_text(pem) {
        Ok(text) => text,
        Err(e) => return Err(HsmError::VerificationFailed(e)),
    };
    let der = match spki_pem_to_der(text) {
        Ok(der) => der,
        Err(e) => return Err(e),
    };
    match rsa_scheme(algorithm) {
        Some(scheme) => Ok(verify_rsa(scheme, der.as_slice(), payload, signature, prehashed)),
        None => match curve(algorithm) {
            Some(on) => if prehashed {
                verdict_answer(ec_verify(on, text, payload, signature))
            } else {
                let digest = compute_digest(algorithm, payload);
                verdict_answer(ec_verify(on, text, digest.as_slice(), signature))
            },
            None => Err(
                HsmError::VerificationFailed(
                    "HMAC verify requires the secret key — use the /verify endpoint instead".to_owned(),
                ),
            ),
        },
    }
}

/// The public key, in PEM, of a private key; of a shared secret, the secret itself.
pub fn derive_public_key_pem(private: &[u8], algorithm: Algorithm) -> (r: HsmResult<String>)
    ensures
        super::answer_view(r) == exported(private@, algorithm),
        r matches Ok(pem) ==> !algorithm.is_hmac() ==> crypto::is_public_pem(pem@),
{
    let text = match utf8_text(private) {
        Ok(text) => text,
        Err(e) => return Err(HsmError::BackendError(e)),
    };
    let pem = match rsa_scheme(algorithm) {
        Some(_) => rsa_export(text),
        None => match curve(algorithm) {
            Some(on) => ec_export(on, text),
            None => Ok(
                join3(
                    "-----BEGIN SYMMETRIC KEY-----\n",
                    base64_encode(private).as_str(),
                    "\n-----END SYMMETRIC KEY-----\n",
                ),
            ),
        },
    };
    export_answer(pem)
}

/// The backend's answer, given what came of exporting a public key.
pub fn export_answer(pem: Result<String, String>) -> (r: HsmResult<String>)
    ensures
        super::answer_view(r) == export_answer_of(crypto::text_or_fault(pem)),
{
    match pem {
        Ok(pem) => Ok(pem),
        Err(e) => Err(HsmError::BackendError(e)),
    }
}

// ---- New keys ----

/// `n` random bytes.
pub fn rand_bytes(n: usize) -> (r: Vec<u8>)
    ensures
        r@.len() == n,
{
    let mut bytes: Vec<u8> = Vec::new();
    while bytes.len() < n
        invariant
            bytes.len() <= n,
        decreases n - bytes.len(),
    {
        bytes.push(0);
    }
    fill_random(&mut bytes);
    bytes
}

/// The bytes are key material for the algorithm.
pub open spec fn is_key_for(algorithm: Algorithm, bytes: Seq<u8>) -> bool {
    match curve_of(algorithm) {
        Some(curve) => crypto::is_ec_key(curve, bytes),
        None => if algorithm.is_rsa() {
            crypto::is_rsa_key(2048, bytes)
        } else {
            bytes.len() == super::digest_len(algorithm)
        },
    }
}

/// A new key for the algorithm: a private key in PEM, or a shared secret as long as the digest. There
/// is always one.
pub fn generate_key(algorithm: &Algorithm) -> (r: Result<Vec<u8>, String>)
    ensures
        r is Ok,
        r matches Ok(bytes) ==> is_key_for(*algorithm, bytes@),
{
    match algorithm {
        Algorithm::Es256 => p256_new_key(),
        Algorithm::Es384 => p384_new_key(),
        Algorithm::Hs256 => Ok(rand_bytes(32)),
        Algorithm::Hs384 => Ok(rand_bytes(48)),
        Algorithm::Hs512 => Ok(rand_bytes(64)),
        _ => rsa_new_key(2048),
    }
}

// ---- The backend ----

/// Where a key's file is.
pub open spec fn key_path(key_dir: Seq<char>, backend_ref: Seq<char>) -> Seq<char> {
    text::without_trailing(key_dir, '/') + "/"@ + backend_ref + ".pem"@
}

/// A key that is to be loaded, and the file it is in.
#[derive(Debug)]
pub struct KeyFile {
    pub config: KeyConfig,
    pub path: String,
}

/// What a `KeyFile` says.
#[verifier::ext_equal]
pub struct KeyFileView {
    pub config: KeyConfigView,
    pub path: Seq<char>,
}

impl View for KeyFile {
    type V = KeyFileView;

    open spec fn view(&self) -> KeyFileView {
        KeyFileView { config: self.config@, path: self.path@ }
    }
}

impl DeepView for KeyFile {
    type V = KeyFileView;

    open spec fn deep_view(&self) -> KeyFileView {
        self@
    }
}

/// The files of the enabled keys, in the order in which the keys are configured.
pub open spec fn files_of(key_dir: Seq<char>, keys: Seq<KeyConfigView>) -> Seq<KeyFileView>
    decreases keys.len(),
{
    if keys.len() == 0 {
        Seq::empty()
    } else {
        let before = files_of(key_dir, keys.drop_last());
        let last = keys.last();
        if last.enabled {
            before.push(KeyFileView { config: last, path: key_path(key_dir, last.backend_ref) })
        } else {
            before
        }
    }
}

/// The files that the backend loads its keys from. Disabled keys are left out.
pub fn key_files(cfg: &SoftwareHsmConfig, keys: &[KeyConfig]) -> (r: Vec<KeyFile>)
    ensures
        r.deep_view() == files_of(cfg.key_dir@, keys.deep_view()),
{
    let dir = trim_end(cfg.key_dir.as_str(), '/');
    let mut files: Vec<KeyFile> = Vec::new();
    let mut i: usize = 0;
    let ghost all = keys.deep_view();
    proof {
        assert(all.take(0) =~= Seq::empty());
        assert(files.deep_view() =~= Seq::empty());
    }
    while i < keys.len()
        invariant
            i <= keys.len(),
            dir@ == text::without_trailing(cfg.key_dir@, '/'),
            all == keys.deep_view(),
            files.deep_view() == files_of(cfg.key_dir@, all.take(i as int)),
        decreases keys.len() - i,
    {
        let key = &keys[i];
        proof {
            assert(all.take(i + 1).drop_last() =~= all.take(i as int));
            assert(all.take(i + 1).last() == key@);
        }
        if key.enabled {
            let path = join2(join3(dir.as_str(), "/", key.backend_ref.as_str()).as_str(), ".pem");
            let file = KeyFile { config: key.clone(), path };
            let ghost before = files.deep_view();
            files.push(file);
            proof {
                assert(files.deep_view() =~= before.push(file@));
            }
        }
        i = i + 1;
    }
    proof {
        assert(all.take(i as int) =~= all);
    }
    files
}

/// What came of reading a key's file.
#[derive(Debug)]
pub enum KeyFileOutcome {
    Found(Vec<u8>),
    /// There is no such file.
    Absent,
    /// There is a file, or there may be; it could not be read.
    Unreadable(String),
}

/// What is to be done about a key after its file was read.
#[derive(Debug)]
pub enum KeyFileStep {
    /// The key material is there.
    Use(Vec<u8>),
    /// A new key is to be generated, and written to the file.
    Generate,
    /// The key cannot be loaded.
    Fail(String),
}

/// A file that is there is used, and is never overwritten: a key is generated only where there is
/// none.
pub fn after_read(outcome: KeyFileOutcome) -> (r: KeyFileStep)
    ensures
        match outcome {
            KeyFileOutcome::Found(bytes) => r matches KeyFileStep::Use(used) && used@ == bytes@,
            KeyFileOutcome::Absent => r is Generate,
            KeyFileOutcome::Unreadable(e) => r matches KeyFileStep::Fail(fault) && fault@ == e@,
        },
{
    match outcome {
        KeyFileOutcome::Found(bytes) => KeyFileStep::Use(bytes),
        KeyFileOutcome::Absent => KeyFileStep::Generate,
        KeyFileOutcome::Unreadable(e) => KeyFileStep::Fail(e),
    }
}

/// A configured key, and the material that was read or generated for it.
pub struct LoadedKey {
    pub config: KeyConfig,
    pub material: SecretBytes,
}

/// What a `LoadedKey` holds.
#[verifier::ext_equal]
pub struct LoadedKeyView {
    pub config: KeyConfigView,
    pub material: Seq<u8>,
}

impl View for LoadedKey {
    type V = LoadedKeyView;

    open spec fn view(&self) -> LoadedKeyView {
        LoadedKeyView { config: self.config@, material: self.material@ }
    }
}

impl DeepView for LoadedKey {
    type V = LoadedKeyView;

    open spec fn deep_view(&self) -> LoadedKeyView {
        self@
    }
}

/// A file that is to be written.
#[derive(Debug)]
pub struct KeyWrite {
    pub path: String,
    pub bytes: Vec<u8>,
}

/// What is to be written where, if anything.
pub open spec fn write_of(write: Option<KeyWrite>) -> Option<(Seq<char>, Seq<u8>)> {
    match write {
        Some(write) => Some((write.path@, write.bytes@)),
        None => None,
    }
}

/// What was found in a key's file, if it is there.
pub open spec fn found(outcome: KeyFileOutcome) -> Option<Seq<u8>> {
    match outcome {
        KeyFileOutcome::Found(bytes) => Some(bytes@),
        _ => None,
    }
}

/// The keys being loaded, one file after the other.
pub struct KeyLoading {
    files: Vec<KeyFile>,
    loaded: Vec<LoadedKey>,
}

/// What a `KeyLoading` says.
#[verifier::ext_equal]
pub struct KeyLoadingView {
    /// The files of all keys that are to be loaded.
    pub files: Seq<KeyFileView>,
    /// The keys that were loaded so far: those of the first files.
    pub loaded: Seq<LoadedKeyView>,
}

impl View for KeyLoading {
    type V = KeyLoadingView;

    closed spec fn view(&self) -> KeyLoadingView {
        KeyLoadingView { files: self.files.deep_view(), loaded: self.loaded.deep_view() }
    }
}

/// The algorithm that a key file's key is for.
pub open spec fn algorithm_of_file(file: KeyFileView) -> Algorithm {
    config::configured(file.config.algorithm)
}

/// May `material` be the key of the file, given what was found in it? What was found is the key;
/// where nothing was, a key is generated.
pub open spec fn is_material(
    file: KeyFileView,
    found: Option<Seq<u8>>,
    material: Seq<u8>,
) -> bool {
    match found {
        Some(bytes) => material == bytes,
        None => is_key_for(algorithm_of_file(file), material),
    }
}

/// What is written of a key: the key itself, to its file, where nothing was found there.
pub open spec fn write_for(
    file: KeyFileView,
    found: Option<Seq<u8>>,
    material: Seq<u8>,
) -> Option<(Seq<char>, Seq<u8>)> {
    match found {
        Some(_) => None,
        None => Some((file.path, material)),
    }
}

/// The loading after one more key was loaded, that of the next file.
pub open spec fn with_key(before: KeyLoadingView, material: Seq<u8>) -> KeyLoadingView {
    let config = before.files[before.loaded.len() as int].config;
    KeyLoadingView {
        loaded: before.loaded.push(LoadedKeyView { config, material }),
        ..before
    }
}

/// Does the loading go on from `before` to `after`, with that write, when that was found in the next
/// file?
pub open spec fn advances(
    before: KeyLoadingView,
    found: Option<Seq<u8>>,
    after: KeyLoadingView,
    write: Option<(Seq<char>, Seq<u8>)>,
) -> bool {
    let file = before.files[before.loaded.len() as int];
    let material = after.loaded.last().material;
    &&& before.loaded.len() < before.files.len()
    &&& after == with_key(before, material)
    &&& is_material(file, found, material)
    &&& write == write_for(file, found, material)
}

impl KeyLoading {
    /// Nothing is loaded yet. The keys to load are the enabled ones.
    pub fn start(cfg: &SoftwareHsmConfig, keys: &[KeyConfig]) -> (r: Self)
        ensures
            r@ == (KeyLoadingView {
                files: files_of(cfg.key_dir@, keys.deep_view()),
                loaded: Seq::empty(),
            }),
    {
        let loaded: Vec<LoadedKey> = Vec::new();
        let r = KeyLoading { files: key_files(cfg, keys), loaded };
        proof {
            assert(r@.loaded =~= Seq::empty());
        }
        r
    }

    /// The file that is to be read next; none when all keys are loaded.
    pub fn next_path(&self) -> (r: Option<&str>)
        ensures
            text::option_view(r) == (if self@.loaded.len() < self@.files.len() {
                Some(self@.files[self@.loaded.len() as int].path)
            } else {
                None
            }),
    {
        if self.loaded.len() < self.files.len() {
            Some(self.files[self.loaded.len()].path.as_str())
        } else {
            None
        }
    }

    /// Takes the bytes as the next key.
    fn take(self, material: Vec<u8>) -> (r: Self)
        requires
            self@.loaded.len() < self@.files.len(),
        ensures
            r@ == with_key(self@, material@),
    {
        let ghost before = self@;
        let mut loading = self;
        let config = loading.files[loading.loaded.len()].config.clone();
        let key = LoadedKey { config, material: SecretBytes::new(material) };
        loading.loaded.push(key);
        proof {
            assert(loading@.loaded =~= before.loaded.push(key@));
        }
        loading
    }

    /// Takes what was generated as the next key, and tells what is to be written: these bytes, to the
    /// key's file.
    pub fn keep(self, made: Result<Vec<u8>, String>) -> (r: Result<
        (KeyLoading, Option<KeyWrite>),
        String,
    >)
        requires
            self@.loaded.len() < self@.files.len(),
        ensures
            match made {
                Ok(bytes) => r matches Ok((after, write)) && after@ == with_key(self@, bytes@)
                    && write_of(write) == Some(
                    (self@.files[self@.loaded.len() as int].path, bytes@),
                ),
                Err(e) => r matches Err(fault) && fault@ == e@,
            },
    {
        match made {
            Ok(bytes) => {
                let path = self.files[self.loaded.len()].path.clone();
                let copy = bytes.clone();
                proof {
                    assert(copy@ =~= bytes@);
                }
                Ok((self.take(bytes), Some(KeyWrite { path, bytes: copy })))
            },
            Err(e) => Err(e),
        }
    }

    /// Loads the next key, given what came of reading its file, and tells what is to be written before
    /// the next file is read. Nothing but an unreadable file ends the loading.
    pub fn load(self, outcome: KeyFileOutcome) -> (r: Result<(KeyLoading, Option<KeyWrite>), String>)
        requires
            self@.loaded.len() < self@.files.len(),
        ensures
            match r {
                Ok((after, write)) => !(outcome is Unreadable) && advances(
                    self@,
                    found(outcome),
                    after@,
                    write_of(write),
                ),
                Err(e) => outcome matches KeyFileOutcome::Unreadable(fault) && e@ == fault@,
            },
    {
        match after_read(outcome) {
            KeyFileStep::Use(bytes) => Ok((self.take(bytes), None)),
            KeyFileStep::Generate => {
                let algorithm = Algorithm::from(self.files[self.loaded.len()].config.algorithm);
                self.keep(generate_key(&algorithm))
            },
            KeyFileStep::Fail(e) => Err(e),
        }
    }

    /// The backend that holds the loaded keys.
    pub fn finish(self) -> (r: SoftwareHsm)
        ensures
            r@ == held(self@.loaded),
    {
        SoftwareHsm::new(self.loaded)
    }
}

/// A key that the backend holds.
struct StoredKey {
    info: KeyInfo,
    private_pem: SecretBytes,
}

/// What the backend knows of a key.
#[verifier::ext_equal]
pub struct StoredKeyView {
    pub info: KeyInfoView,
    pub material: Seq<u8>,
}

impl DeepView for StoredKey {
    type V = StoredKeyView;

    closed spec fn deep_view(&self) -> StoredKeyView {
        StoredKeyView { info: self.info@, material: self.private_pem@ }
    }
}

/// What is stored of a loaded key.
pub open spec fn stored(key: LoadedKeyView) -> StoredKeyView {
    let algorithm = config::configured(key.config.algorithm);
    StoredKeyView {
        info: KeyInfoView {
            id: key.config.id,
            description: key.config.description,
            algorithm,
            enabled: key.config.enabled,
            key_type: key_label(algorithm),
        },
        material: key.material,
    }
}

/// What the backend holds after the keys were loaded in turn. Disabled keys are left out; of two
/// keys with the same id the later one stays, in the place of the first.
pub open spec fn held(keys: Seq<LoadedKeyView>) -> Seq<(Seq<char>, StoredKeyView)>
    decreases keys.len(),
{
    if keys.len() == 0 {
        Seq::empty()
    } else {
        let before = held(keys.drop_last());
        let last = keys.last();
        if last.config.enabled {
            string_map::upsert(before, last.config.id, stored(last))
        } else {
            before
        }
    }
}

/// The software backend.
pub struct SoftwareHsm {
    keys: StringMap<StoredKey>,
}

impl View for SoftwareHsm {
    type V = Seq<(Seq<char>, StoredKeyView)>;

    closed spec fn view(&self) -> Seq<(Seq<char>, StoredKeyView)> {
        self.keys@
    }
}

impl SoftwareHsm {
    /// A backend that holds the loaded keys.
    pub fn new(loaded: Vec<LoadedKey>) -> (r: Self)
        ensures
            r@ == held(loaded.deep_view()),
    {
        let mut keys: StringMap<StoredKey> = StringMap::new();
        let ghost all = loaded.deep_view();
        proof {
            assert(all.take(0) =~= Seq::empty());
        }
        for key in it: loaded.into_iter()
            invariant
                all.len() == it.seq().len(),
                forall|j: int| 0 <= j < all.len() ==> #[trigger] all[j] == it.seq()[j]@,
                keys@ == held(all.take(it.index() as int)),
        {
            proof {
                let i = it.index() as int;
                assert(all.take(i + 1).drop_last() =~= all.take(i));
                assert(all.take(i + 1).last() == key@);
            }
            let LoadedKey { config, material } = key;
            if config.enabled {
                let algorithm = Algorithm::from(config.algorithm);
                let info = KeyInfo {
                    id: config.id.clone(),
                    description: config.description,
                    algorithm,
                    enabled: config.enabled,
                    key_type: key_type_label(algorithm),
                };
                keys.insert(config.id, StoredKey { info, private_pem: material });
            }
        }
        proof {
            assert(all.take(all.len() as int) =~= all);
        }
        SoftwareHsm { keys }
    }
}

/// May this be the answer to signing with the key material?
pub open spec fn material_signs(
    material: Seq<u8>,
    algorithm: Algorithm,
    payload: Seq<u8>,
    answer: Result<Seq<u8>, HsmErrorView>,
) -> bool {
    if algorithm.is_rsa() {
        rsa_signs(material, algorithm, payload, answer)
    } else if algorithm.is_ec() {
        ecdsa_signs(material, algorithm, payload, answer)
    } else {
        answer == Ok::<Seq<u8>, HsmErrorView>(hmac_code(algorithm, material, payload))
    }
}

/// May this be the answer to signing a digest with the key material? An HMAC code is one of the
/// digest as it is.
pub open spec fn material_signs_digest(
    material: Seq<u8>,
    algorithm: Algorithm,
    digest: Seq<u8>,
    answer: Result<Seq<u8>, HsmErrorView>,
) -> bool {
    if algorithm.is_rsa() {
        rsa_signs_digest(material, algorithm, digest, answer)
    } else if algorithm.is_ec() {
        ecdsa_signs_digest(material, algorithm, digest, answer)
    } else {
        answer == Ok::<Seq<u8>, HsmErrorView>(hmac_code(algorithm, material, digest))
    }
}

/// May this be the answer to signing the payload, which is a digest if it is `prehashed`?
pub open spec fn material_answers(
    material: Seq<u8>,
    algorithm: Algorithm,
    payload: Seq<u8>,
    prehashed: bool,
    answer: Result<Seq<u8>, HsmErrorView>,
) -> bool {
    if prehashed {
        material_signs_digest(material, algorithm, payload, answer)
    } else {
        material_signs(material, algorithm, payload, answer)
    }
}

/// Whether the signature verifies under the public key of the key material, or is the code under the
/// shared secret.
pub open spec fn material_verifies(
    material: Seq<u8>,
    algorithm: Algorithm,
    payload: Seq<u8>,
    signature: Seq<u8>,
    prehashed: bool,
) -> Result<bool, HsmErrorView> {
    if algorithm.is_hmac() {
        Ok(signature == hmac_code(algorithm, material, payload))
    } else {
        match exported(material, algorithm) {
            Ok(pem) => verification(encode_utf8(pem), algorithm, payload, signature, prehashed),
            Err(e) => Err(e),
        }
    }
}

/// What callers may know of the keys.
pub open spec fn infos(keys: Seq<(Seq<char>, StoredKeyView)>) -> Seq<KeyInfoView> {
    keys.map_values(|entry: (Seq<char>, StoredKeyView)| entry.1.info)
}

impl HsmBackend for SoftwareHsm {
    open spec fn is_named(&self, name: Seq<char>) -> bool {
        name == "software"@
    }

    open spec fn may_sign(
        &self,
        key_id: Seq<char>,
        algorithm: Algorithm,
        payload: Seq<u8>,
        prehashed: bool,
        answer: Result<Seq<u8>, HsmErrorView>,
    ) -> bool {
        match string_map::lookup(self@, key_id) {
            None => answer == Err::<Seq<u8>, HsmErrorView>(HsmErrorView::KeyNotFound(key_id)),
            Some(key) => if key.info.enabled {
                material_answers(key.material, algorithm, payload, prehashed, answer)
            } else {
                answer == Err::<Seq<u8>, HsmErrorView>(HsmErrorView::KeyDisabled(key_id))
            },
        }
    }

    open spec fn may_verify(
        &self,
        key_id: Seq<char>,
        algorithm: Algorithm,
        payload: Seq<u8>,
        signature: Seq<u8>,
        prehashed: bool,
        answer: Result<bool, HsmErrorView>,
    ) -> bool {
        &&& answer == match string_map::lookup(self@, key_id) {
            None => Err(HsmErrorView::KeyNotFound(key_id)),
            Some(key) => material_verifies(
                key.material,
                algorithm,
                payload,
                signature,
                prehashed,
            ),
        }
        &&& has_other_length(algorithm, signature) ==> answer is Err
    }

    open spec fn may_export(
        &self,
        key_id: Seq<char>,
        answer: Result<PublicKeyView, HsmErrorView>,
    ) -> bool {
        answer == match string_map::lookup(self@, key_id) {
            None => Err(HsmErrorView::KeyNotFound(key_id)),
            Some(key) => match exported(key.material, key.info.algorithm) {
                Ok(pem) => Ok(
                    PublicKeyView {
                        key_id,
                        pem,
                        algorithm: key.info.algorithm,
                        key_type: key.info.key_type,
                    },
                ),
                Err(e) => Err(e),
            },
        }
    }

    open spec fn may_list(&self, answer: Result<Seq<KeyInfoView>, HsmErrorView>) -> bool {
        answer == Ok::<Seq<KeyInfoView>, HsmErrorView>(infos(self@))
    }

    fn backend_name(&self) -> (r: &'static str) {
        "software"
    }

    /// Signs the payload, which is digested on the way unless it is a digest already.
    fn sign(&self, key_id: &str, algorithm: Algorithm, payload: &[u8], prehashed: bool) -> (r:
        HsmResult<Signature>) {
        let key = match self.keys.get(key_id) {
            Some(key) => key,
            None => return Err(HsmError::KeyNotFound(key_id.to_owned())),
        };
        if !key.info.enabled {
            return Err(HsmError::KeyDisabled(key_id.to_owned()));
        }
        let material = key.private_pem.as_slice();
        let signed = match algorithm {
            Algorithm::Es256 | Algorithm::Es384 => if prehashed {
                sign_ecdsa_digest(material, algorithm, payload)
            } else {
                sign_ecdsa(material, algorithm, payload)
            },
            Algorithm::Hs256 | Algorithm::Hs384 | Algorithm::Hs512 => sign_hmac(
                material,
                algorithm,
                payload,
            ),
            _ => if prehashed {
                sign_rsa_digest(material, algorithm, payload)
            } else {
                sign_rsa(material, algorithm, payload)
            },
        };
        match signed {
            Ok(bytes) => Ok(Signature(bytes)),
            Err(e) => Err(e),
        }
    }

    fn verify(
        &self,
        key_id: &str,
        algorithm: Algorithm,
        payload: &[u8],
        signature: &[u8],
        prehashed: bool,
    ) -> (r: HsmResult<bool>) {
        let key = match self.keys.get(key_id) {
            Some(key) => key,
            None => return Err(HsmError::KeyNotFound(key_id.to_owned())),
        };
        let material = key.private_pem.as_slice();
        match algorithm {
            Algorithm::Hs256 | Algorithm::Hs384 | Algorithm::Hs512 => return verify_hmac(
                material,
                algorithm,
                payload,
                signature,
            ),
            _ => {},
        }
        match derive_public_key_pem(material, algorithm) {
            Ok(pem) => verify_with_public_key(
                pem.as_str().as_bytes(),
                algorithm,
                payload,
                signature,
                prehashed,
            ),
            Err(e) => Err(e),
        }
    }

    fn public_key(&self, key_id: &str) -> (r: HsmResult<PublicKey>) {
        let key = match self.keys.get(key_id) {
            Some(key) => key,
            None => return Err(HsmError::KeyNotFound(key_id.to_owned())),
        };
        match derive_public_key_pem(key.private_pem.as_slice(), key.info.algorithm) {
            Ok(pem) => Ok(
                PublicKey {
                    key_id: key_id.to_owned(),
                    pem,
                    algorithm: key.info.algorithm,
                    key_type: key.info.key_type.clone(),
                },
            ),
            Err(e) => Err(e),
        }
    }

    fn list_keys(&self) -> (r: HsmResult<Vec<KeyInfo>>) {
        let mut list: Vec<KeyInfo> = Vec::new();
        let mut i: usize = 0;
        proof {
            assert(list.deep_view() =~= infos(self@).take(0));
        }
        while i < self.keys.len()
            invariant
                i <= self@.len(),
                list.deep_view() == infos(self@).take(i as int),
            decreases self@.len() - i,
        {
            let info = self.keys.value_at(i).info.clone();
            let ghost before = list.deep_view();
            list.push(info);
            proof {
                assert(list.deep_view() =~= before.push(info@));
                assert(infos(self@).take(i + 1) =~= before.push(infos(self@)[i as int]));
            }
            i = i + 1;
        }
        proof {
            assert(infos(self@).take(i as int) =~= infos(self@));
        }
        Ok(list)
    }
}

// ---- What holds of the key files ----

/// The bytes of the keys.
pub open spec fn materials(keys: Seq<LoadedKeyView>) -> Seq<Seq<u8>> {
    keys.map_values(|key: LoadedKeyView| key.material)
}

/// What stands in the file of that path, if it is there.
pub open spec fn contents(disk: Map<Seq<char>, Seq<u8>>, path: Seq<char>) -> Option<Seq<u8>> {
    if disk.contains_key(path) {
        Some(disk[path])
    } else {
        None
    }
}

/// The files after a write, if there is one.
pub open spec fn written(
    disk: Map<Seq<char>, Seq<u8>>,
    write: Option<(Seq<char>, Seq<u8>)>,
) -> Map<Seq<char>, Seq<u8>> {
    match write {
        Some((path, bytes)) => disk.insert(path, bytes),
        None => disk,
    }
}

/// The files after keys were loaded from the files in turn, which gave those bytes, and each write was
/// carried out.
pub open spec fn disk_after(
    disk: Map<Seq<char>, Seq<u8>>,
    files: Seq<KeyFileView>,
    keys: Seq<Seq<u8>>,
) -> Map<Seq<char>, Seq<u8>>
    decreases files.len(),
{
    if files.len() == 0 {
        disk
    } else {
        let before = disk_after(disk, files.drop_last(), keys.drop_last());
        written(
            before,
            write_for(files.last(), contents(before, files.last().path), keys.last()),
        )
    }
}

/// May these be the bytes of the keys when they are loaded from the files in turn?
pub open spec fn may_load(
    disk: Map<Seq<char>, Seq<u8>>,
    files: Seq<KeyFileView>,
    keys: Seq<Seq<u8>>,
) -> bool
    decreases files.len(),
{
    &&& keys.len() == files.len()
    &&& files.len() > 0 ==> {
        let before = disk_after(disk, files.drop_last(), keys.drop_last());
        &&& may_load(disk, files.drop_last(), keys.drop_last())
        &&& is_material(files.last(), contents(before, files.last().path), keys.last())
    }
}

/// A loading that starts has loaded and written nothing.
pub proof fn loading_starts(disk: Map<Seq<char>, Seq<u8>>, start: KeyLoadingView)
    requires
        start.loaded.len() == 0,
    ensures
        may_load(disk, start.files.take(start.loaded.len() as int), materials(start.loaded)),
        disk_after(disk, start.files.take(start.loaded.len() as int), materials(start.loaded))
            == disk,
{
}

/// A loading that goes on, with its write carried out, does so as `may_load` and `disk_after` say: if
/// the keys so far were loaded from the files on `disk`, so were those with the next one.
pub proof fn loading_goes_on(
    disk: Map<Seq<char>, Seq<u8>>,
    before: KeyLoadingView,
    after: KeyLoadingView,
    write: Option<(Seq<char>, Seq<u8>)>,
)
    requires
        before.loaded.len() < before.files.len(),
        may_load(
            disk,
            before.files.take(before.loaded.len() as int),
            materials(before.loaded),
        ),
        advances(
            before,
            contents(
                disk_after(
                    disk,
                    before.files.take(before.loaded.len() as int),
                    materials(before.loaded),
                ),
                before.files[before.loaded.len() as int].path,
            ),
            after,
            write,
        ),
    ensures
        may_load(disk, after.files.take(after.loaded.len() as int), materials(after.loaded)),
        disk_after(disk, after.files.take(after.loaded.len() as int), materials(after.loaded))
            == written(
            disk_after(
                disk,
                before.files.take(before.loaded.len() as int),
                materials(before.loaded),
            ),
            write,
        ),
{
    let n = before.loaded.len() as int;
    let files = after.files.take(n + 1);
    let keys = materials(after.loaded);
    assert(files.drop_last() =~= before.files.take(n));
    assert(keys.drop_last() =~= materials(before.loaded));
    assert(files.last() == before.files[n]);
    assert(keys.last() == after.loaded.last().material);
}

/// A file that was there before keys were loaded is there afterwards, unchanged.
pub proof fn key_files_stay(
    disk: Map<Seq<char>, Seq<u8>>,
    files: Seq<KeyFileView>,
    keys: Seq<Seq<u8>>,
    path: Seq<char>,
)
    requires
        may_load(disk, files, keys),
        disk.contains_key(path),
    ensures
        disk_after(disk, files, keys).contains_key(path),
        disk_after(disk, files, keys)[path] == disk[path],
    decreases files.len(),
{
    if files.len() > 0 {
        key_files_stay(disk, files.drop_last(), keys.drop_last(), path);
    }
}

/// The first of the files with that path.
pub open spec fn first_with_path(files: Seq<KeyFileView>, path: Seq<char>) -> Option<KeyFileView>
    decreases files.len(),
{
    if files.len() == 0 {
        None
    } else {
        match first_with_path(files.drop_last(), path) {
            Some(file) => Some(file),
            None => if files.last().path == path {
                Some(files.last())
            } else {
                None
            },
        }
    }
}

/// Only files of keys that are to be loaded are written, and only those that were missing: what is
/// there then is a new key, for the algorithm of the first key with that file.
pub proof fn missing_files_are_written(
    disk: Map<Seq<char>, Seq<u8>>,
    files: Seq<KeyFileView>,
    keys: Seq<Seq<u8>>,
    path: Seq<char>,
)
    requires
        may_load(disk, files, keys),
        !disk.contains_key(path),
    ensures
        match first_with_path(files, path) {
            Some(file) => disk_after(disk, files, keys).contains_key(path) && is_key_for(
                algorithm_of_file(file),
                disk_after(disk, files, keys)[path],
            ),
            None => !disk_after(disk, files, keys).contains_key(path),
        },
    decreases files.len(),
{
    if files.len() > 0 {
        missing_files_are_written(disk, files.drop_last(), keys.drop_last(), path);
    }
}

/// After keys were loaded, each stands in its file.
pub proof fn loaded_keys_stand_in_their_files(
    disk: Map<Seq<char>, Seq<u8>>,
    files: Seq<KeyFileView>,
    keys: Seq<Seq<u8>>,
    i: int,
)
    requires
        may_load(disk, files, keys),
        0 <= i < files.len(),
    ensures
        contents(disk_after(disk, files, keys), files[i].path) == Some(keys[i]),
    decreases files.len(),
{
    if i < files.len() - 1 {
        loaded_keys_stand_in_their_files(disk, files.drop_last(), keys.drop_last(), i);
    }
}

/// Where each key's file is there already, nothing is written, and the keys are those in the files.
pub proof fn complete_files_are_kept(
    disk: Map<Seq<char>, Seq<u8>>,
    files: Seq<KeyFileView>,
    keys: Seq<Seq<u8>>,
)
    requires
        may_load(disk, files, keys),
        forall|i: int| 0 <= i < files.len() ==> disk.contains_key((#[trigger] files[i]).path),
    ensures
        disk_after(disk, files, keys) == disk,
        forall|i: int| 0 <= i < files.len() ==> keys[i] == disk[(#[trigger] files[i]).path],
    decreases files.len(),
{
    if files.len() > 0 {
        let fewer = files.drop_last();
        assert forall|i: int| 0 <= i < fewer.len() implies disk.contains_key(
            (#[trigger] fewer[i]).path,
        ) by {
            assert(fewer[i] == files[i]);
        }
        complete_files_are_kept(disk, fewer, keys.drop_last());
        assert(disk.contains_key(files[files.len() - 1].path));
        assert forall|i: int| 0 <= i < files.len() implies keys[i] == disk[(
        #[trigger] files[i]).path] by {
            if i < files.len() - 1 {
                assert(fewer[i] == files[i]);
                assert(keys.drop_last()[i] == keys[i]);
            }
        }
    }
}

/// When the keys are loaded a second time, nothing is written, and they are the same keys.
pub proof fn second_loading_changes_nothing(
    disk: Map<Seq<char>, Seq<u8>>,
    files: Seq<KeyFileView>,
    first: Seq<Seq<u8>>,
    second: Seq<Seq<u8>>,
)
    requires
        may_load(disk, files, first),
        may_load(disk_after(disk, files, first), files, second),
    ensures
        second == first,
        disk_after(disk_after(disk, files, first), files, second) == disk_after(
            disk,
            files,
            first,
        ),
{
    let after = disk_after(disk, files, first);
    assert forall|i: int| 0 <= i < files.len() implies after.contains_key(
        (#[trigger] files[i]).path,
    ) && after[files[i].path] == first[i] by {
        loaded_keys_stand_in_their_files(disk, files, first, i);
    }
    complete_files_are_kept(after, files, second);
    assert forall|i: int| 0 <= i < files.len() implies second[i] == first[i] by {
        assert(after[files[i].path] == first[i]);
    }
    assert(second =~= first);
}

/// Does a loading go on from `before` to `after` when the next file is read on `disk`, as the writes so
/// far have left it?
pub open spec fn goes_on(
    disk: Map<Seq<char>, Seq<u8>>,
    before: KeyLoadingView,
    after: KeyLoadingView,
) -> bool {
    let n = before.loaded.len() as int;
    let now = disk_after(disk, before.files.take(n), materials(before.loaded));
    let found = contents(now, before.files[n].path);
    advances(
        before,
        found,
        after,
        write_for(before.files[n], found, after.loaded.last().material),
    )
}

/// The states of a loading from the files on `disk`, from its start on.
pub open spec fn is_run(disk: Map<Seq<char>, Seq<u8>>, states: Seq<KeyLoadingView>) -> bool {
    &&& states.len() > 0
    &&& states[0].loaded.len() == 0
    &&& forall|i: int|
        #![trigger states[i]]
        0 <= i < states.len() - 1 ==> goes_on(disk, states[i], states[i + 1])
}

/// After so many steps of a loading, as many keys are loaded: those of the first files, in turn.
pub proof fn each_step_loads_a_key(
    disk: Map<Seq<char>, Seq<u8>>,
    states: Seq<KeyLoadingView>,
    n: int,
)
    requires
        is_run(disk, states),
        0 <= n < states.len(),
    ensures
        states[n].files == states[0].files,
        states[n].loaded.len() == n <= states[0].files.len(),
        forall|i: int|
            0 <= i < n ==> (#[trigger] states[n].loaded[i]).config == states[0].files[i].config,
        may_load(disk, states[0].files.take(n), materials(states[n].loaded)),
    decreases n,
{
    if n == 0 {
        loading_starts(disk, states[0]);
    } else {
        let before = states[n - 1];
        each_step_loads_a_key(disk, states, n - 1);
        assert(goes_on(disk, before, states[n - 1 + 1]));
        let found = contents(
            disk_after(disk, before.files.take(n - 1), materials(before.loaded)),
            before.files[n - 1].path,
        );
        loading_goes_on(
            disk,
            before,
            states[n],
            write_for(before.files[n - 1], found, states[n].loaded.last().material),
        );
        assert forall|i: int| 0 <= i < n implies (#[trigger] states[n].loaded[i]).config
            == states[0].files[i].config by {
            if i < n - 1 {
                assert(states[n].loaded[i] == before.loaded[i]);
            }
        }
    }
}

/// A key that is loaded under an id, and enabled, is found there, or a later one is.
proof fn lemma_loaded_is_found(keys: Seq<LoadedKeyView>, i: int)
    requires
        0 <= i < keys.len(),
        keys[i].config.enabled,
    ensures
        last_with_id(keys, keys[i].config.id) is Some,
    decreases keys.len(),
{
    if i < keys.len() - 1 {
        lemma_loaded_is_found(keys.drop_last(), i);
    }
}

/// A loading that is over has loaded every enabled key, and the backend then holds one under its id.
/// No loading of readable files ends before that: see `KeyLoading::load`.
pub proof fn every_enabled_key_is_loaded(
    disk: Map<Seq<char>, Seq<u8>>,
    states: Seq<KeyLoadingView>,
    key_dir: Seq<char>,
    keys: Seq<KeyConfigView>,
    j: int,
)
    requires
        is_run(disk, states),
        states[0].files == files_of(key_dir, keys),
        states.last().loaded.len() >= states.last().files.len(),
        0 <= j < keys.len(),
        keys[j].enabled,
    ensures
        may_load(disk, files_of(key_dir, keys), materials(states.last().loaded)),
        exists|i: int|
            0 <= i < states.last().loaded.len() && (#[trigger] states.last().loaded[i]).config
                == keys[j],
        string_map::lookup(held(states.last().loaded), keys[j].id) is Some,
{
    let files = files_of(key_dir, keys);
    let loaded = states.last().loaded;
    each_step_loads_a_key(disk, states, states.len() - 1);
    assert(files.take(files.len() as int) =~= files);
    files_are_of_enabled_keys(key_dir, keys);
    let file = KeyFileView { config: keys[j], path: key_path(key_dir, keys[j].backend_ref) };
    assert(files.contains(file));
    let i = choose|i: int| 0 <= i < files.len() && files[i] == file;
    assert(loaded[i].config == keys[j]);
    lemma_loaded_is_found(loaded, i);
    held_under_id(loaded, keys[j].id);
}

/// The files are those of the enabled keys, and of no other key.
pub proof fn files_are_of_enabled_keys(key_dir: Seq<char>, keys: Seq<KeyConfigView>)
    ensures
        forall|i: int|
            0 <= i < files_of(key_dir, keys).len() ==> {
                let file = #[trigger] files_of(key_dir, keys)[i];
                file.config.enabled && file.path == key_path(key_dir, file.config.backend_ref)
                    && keys.contains(file.config)
            },
        forall|j: int|
            0 <= j < keys.len() && (#[trigger] keys[j]).enabled ==> files_of(
                key_dir,
                keys,
            ).contains(
                KeyFileView { config: keys[j], path: key_path(key_dir, keys[j].backend_ref) },
            ),
    decreases keys.len(),
{
    if keys.len() > 0 {
        let fewer = keys.drop_last();
        let before = files_of(key_dir, fewer);
        let all = files_of(key_dir, keys);
        files_are_of_enabled_keys(key_dir, fewer);
        assert forall|i: int| 0 <= i < all.len() implies {
            let file = #[trigger] all[i];
            file.config.enabled && file.path == key_path(key_dir, file.config.backend_ref)
                && keys.contains(file.config)
        } by {
            if i < before.len() {
                assert(all[i] == before[i]);
                let j = choose|j: int| 0 <= j < fewer.len() && fewer[j] == before[i].config;
                assert(keys[j] == fewer[j]);
            } else {
                assert(keys[keys.len() - 1] == all[i].config);
            }
        }
        assert forall|j: int| 0 <= j < keys.len() && (#[trigger] keys[j]).enabled implies all.contains(
            KeyFileView { config: keys[j], path: key_path(key_dir, keys[j].backend_ref) },
        ) by {
            let file = KeyFileView {
                config: keys[j],
                path: key_path(key_dir, keys[j].backend_ref),
            };
            if j < fewer.len() {
                assert(fewer[j] == keys[j]);
                let i = choose|i: int| 0 <= i < before.len() && before[i] == file;
                assert(all[i] == file);
            } else {
                assert(all[all.len() - 1] == file);
            }
        }
    }
}

// ---- What holds of the backend ----

/// The keys that are held are enabled, each stands under its own id, and no id stands twice.
pub proof fn held_keys_are_enabled(keys: Seq<LoadedKeyView>)
    ensures
        string_map::keys_differ(held(keys)),
        forall|i: int|
            0 <= i < held(keys).len() ==> (#[trigger] held(keys)[i]).1.info.enabled
                && held(keys)[i].1.info.id == held(keys)[i].0,
    decreases keys.len(),
{
    if keys.len() > 0 {
        let before = held(keys.drop_last());
        let last = keys.last();
        held_keys_are_enabled(keys.drop_last());
        if last.config.enabled {
            string_map::lemma_upsert_keys_differ(before, last.config.id, stored(last));
            assert forall|i: int| 0 <= i < held(keys).len() implies (
            #[trigger] held(keys)[i]).1.info.enabled && held(keys)[i].1.info.id
                == held(keys)[i].0 by {
                string_map::lemma_upsert_entry(before, last.config.id, stored(last), i);
                if held(keys)[i] != (last.config.id, stored(last)) {
                    let j = choose|j: int| 0 <= j < before.len() && before[j] == held(keys)[i];
                    assert(before[j].1.info.enabled);
                }
            }
        }
    }
}

/// The last enabled key with that id.
pub open spec fn last_with_id(keys: Seq<LoadedKeyView>, id: Seq<char>) -> Option<LoadedKeyView>
    decreases keys.len(),
{
    if keys.len() == 0 {
        None
    } else if keys.last().config.enabled && keys.last().config.id == id {
        Some(keys.last())
    } else {
        last_with_id(keys.drop_last(), id)
    }
}

/// Under an id the backend holds the last enabled key that was configured with it, and none where
/// no enabled key was.
pub proof fn held_under_id(keys: Seq<LoadedKeyView>, id: Seq<char>)
    ensures
        string_map::lookup(held(keys), id) == (match last_with_id(keys, id) {
            Some(key) => Some(stored(key)),
            None => None,
        }),
    decreases keys.len(),
{
    if keys.len() > 0 {
        let last = keys.last();
        held_under_id(keys.drop_last(), id);
        if last.config.enabled {
            string_map::lemma_upsert_lookup(
                held(keys.drop_last()),
                last.config.id,
                stored(last),
                id,
            );
        }
    }
}

/// A backend that was made from loaded keys never answers that a key is disabled: it does not know
/// such keys.
pub proof fn disabled_keys_are_unknown(
    hsm: SoftwareHsm,
    keys: Seq<LoadedKeyView>,
    key_id: Seq<char>,
    algorithm: Algorithm,
    payload: Seq<u8>,
    prehashed: bool,
    answer: Result<Seq<u8>, HsmErrorView>,
)
    requires
        hsm@ == held(keys),
        hsm.may_sign(key_id, algorithm, payload, prehashed, answer),
    ensures
        !(answer matches Err(HsmErrorView::KeyDisabled(_))),
        last_with_id(keys, key_id) is None ==> answer == Err::<Seq<u8>, HsmErrorView>(
            HsmErrorView::KeyNotFound(key_id),
        ),
{
    held_keys_are_enabled(keys);
    held_under_id(keys, key_id);
    if string_map::lookup(hsm@, key_id) is Some {
        let i = string_map::lemma_lookup_some(hsm@, key_id);
        assert(held(keys)[i].1.info.enabled);
    }
}

/// The key material is a PEM document with nothing before its boundary that counts: each line there is
/// empty or begins with five hyphens. The boundary's line ends in a line feed, or in a carriage return
/// and a line feed.
pub open spec fn is_plain_pem(material: Seq<u8>) -> bool {
    crypto::is_plain(decode_utf8(material))
}

/// What is signed with the key material can be checked with its public half. That is so of every RSA
/// key and every shared secret. Elliptic-curve keys are read in two ways, to sign and to export the
/// public key, which agree on plain documents; not all that the one reads is read by the other.
pub open spec fn can_verify(material: Seq<u8>, algorithm: Algorithm) -> bool {
    algorithm.is_ec() ==> is_plain_pem(material) && exported(material, algorithm) is Ok
}

/// A signature that the key material makes verifies, under the same algorithm, whether the payload is
/// a message or a digest.
pub proof fn made_signatures_verify(
    material: Seq<u8>,
    algorithm: Algorithm,
    payload: Seq<u8>,
    prehashed: bool,
    signature: Seq<u8>,
)
    requires
        material_answers(material, algorithm, payload, prehashed, Ok(signature)),
        can_verify(material, algorithm),
    ensures
        material_verifies(material, algorithm, payload, signature, prehashed) == Ok::<
            bool,
            HsmErrorView,
        >(true),
{
    if !algorithm.is_hmac() {
        let pem = decode_utf8(material);
        if algorithm.is_rsa() {
            let scheme = rsa_scheme_of(algorithm)->0;
            if !prehashed {
                let der = rsa_private_der(pem)->Ok_0;
                assert(crypto::rsa_pkcs8(pem) == Ok::<Seq<u8>, RsaPemFaultView>(der));
                assert(crypto::accepted_under_exports(scheme, der, payload, signature));
                assert(crypto::export_accepts(scheme, pem, payload, signature));
            } else {
                assert(crypto::export_accepts_digest(scheme, pem, payload, signature));
            }
        } else {
            let curve = curve_of(algorithm)->0;
            let der = encoding::base64_bytes(encoding::pem_body(pem))->Ok_0;
            assert(crypto::holds_der(pem, der));
            assert(crypto::verifies_under_export(
                curve,
                pem,
                to_be_signed(algorithm, payload, prehashed),
                signature,
            ));
        }
        let public = exported(material, algorithm)->Ok_0;
        encode_utf8_valid_utf8(public);
        encode_utf8_decode_utf8(public);
    }
}

/// What the backend signs, it verifies: under the same key and algorithm, and with the payload taken
/// as a message both times, or as a digest both times.
pub proof fn signatures_verify(
    hsm: SoftwareHsm,
    key_id: Seq<char>,
    algorithm: Algorithm,
    payload: Seq<u8>,
    prehashed: bool,
    signature: Seq<u8>,
    answer: Result<bool, HsmErrorView>,
)
    requires
        hsm.may_sign(key_id, algorithm, payload, prehashed, Ok(signature)),
        hsm.may_verify(key_id, algorithm, payload, signature, prehashed, answer),
        string_map::lookup(hsm@, key_id) matches Some(key) ==> can_verify(
            key.material,
            algorithm,
        ),
    ensures
        answer == Ok::<bool, HsmErrorView>(true),
{
    let material = string_map::lookup(hsm@, key_id)->0.material;
    made_signatures_verify(material, algorithm, payload, prehashed, signature);
}

/// What the backend signs, a service can verify on its own with the public key that the backend hands
/// out, where the algorithm is the key's own or both are RSA.
pub proof fn signatures_verify_under_handed_out_keys(
    hsm: SoftwareHsm,
    key_id: Seq<char>,
    algorithm: Algorithm,
    payload: Seq<u8>,
    prehashed: bool,
    signature: Seq<u8>,
    public: PublicKeyView,
)
    requires
        !algorithm.is_hmac(),
        hsm.may_sign(key_id, algorithm, payload, prehashed, Ok(signature)),
        hsm.may_export(key_id, Ok(public)),
        algorithm == public.algorithm || (algorithm.is_rsa() && public.algorithm.is_rsa()),
        string_map::lookup(hsm@, key_id) matches Some(key) ==> can_verify(
            key.material,
            algorithm,
        ),
    ensures
        verification(encode_utf8(public.pem), algorithm, payload, signature, prehashed) == Ok::<
            bool,
            HsmErrorView,
        >(true),
{
    let key = string_map::lookup(hsm@, key_id)->0;
    rsa_algorithms_share_the_public_key(key.material, algorithm, public.algorithm);
    made_signatures_verify(key.material, algorithm, payload, prehashed, signature);
}

/// To sign a message's digest is to sign the message: the signature verifies as one of the message
/// itself.
pub proof fn digest_signatures_verify_messages(
    material: Seq<u8>,
    algorithm: Algorithm,
    message: Seq<u8>,
    signature: Seq<u8>,
)
    requires
        !algorithm.is_hmac(),
        material_signs_digest(
            material,
            algorithm,
            super::digest(algorithm, message),
            Ok(signature),
        ),
        can_verify(material, algorithm),
    ensures
        material_verifies(material, algorithm, message, signature, false) == Ok::<
            bool,
            HsmErrorView,
        >(true),
{
    let pem = decode_utf8(material);
    let digest = super::digest(algorithm, message);
    if algorithm.is_rsa() {
        let scheme = rsa_scheme_of(algorithm)->0;
        assert(crypto::export_accepts_digest(scheme, pem, digest, signature));
        assert(crypto::scheme_digest(scheme, message) == digest);
        assert(crypto::export_accepts(scheme, pem, message, signature));
    } else {
        let der = encoding::base64_bytes(encoding::pem_body(pem))->Ok_0;
        assert(crypto::holds_der(pem, der));
        assert(crypto::verifies_under_export(curve_of(algorithm)->0, pem, digest, signature));
    }
    let public = exported(material, algorithm)->Ok_0;
    encode_utf8_valid_utf8(public);
    encode_utf8_decode_utf8(public);
}

/// A code is verified if and only if it is the one that signing gives.
pub proof fn hmac_codes_are_verified(
    hsm: SoftwareHsm,
    key_id: Seq<char>,
    algorithm: Algorithm,
    payload: Seq<u8>,
    prehashed: bool,
    signed: Result<Seq<u8>, HsmErrorView>,
    code: Seq<u8>,
    answer: Result<bool, HsmErrorView>,
)
    requires
        algorithm.is_hmac(),
        signed is Ok,
        hsm.may_sign(key_id, algorithm, payload, prehashed, signed),
        hsm.may_verify(key_id, algorithm, payload, code, prehashed, answer),
    ensures
        answer == Ok::<bool, HsmErrorView>(signed == Ok::<Seq<u8>, HsmErrorView>(code)),
{
}

/// The answer when a message is not signed although the key is accepted.
pub open spec fn fails_in_signing(
    algorithm: Algorithm,
    answer: Result<Seq<u8>, HsmErrorView>,
) -> bool {
    match curve_of(algorithm) {
        Some(curve) => no_randomness(curve, answer),
        None => answer == Err::<Seq<u8>, HsmErrorView>(
            HsmErrorView::SigningFailed("Unspecified"@),
        ),
    }
}

/// From a generated key other than a shared secret a public key can be exported, which is PEM; and
/// what is signed with a generated key can be checked.
pub proof fn generated_keys_have_public_halves(algorithm: Algorithm, material: Seq<u8>)
    requires
        is_key_for(algorithm, material),
    ensures
        !algorithm.is_hmac() ==> (exported(material, algorithm) matches Ok(pem)
            && crypto::is_public_pem(pem)),
        can_verify(material, algorithm),
{
}

/// A generated key is accepted for signing, so that no message is refused on its account; and what is
/// signed with it verifies, messages and digests alike. An RSA key's signatures have the 256 bytes of
/// a modulus of 2048 bits.
pub proof fn generated_keys_work(
    algorithm: Algorithm,
    material: Seq<u8>,
    payload: Seq<u8>,
    prehashed: bool,
    answer: Result<Seq<u8>, HsmErrorView>,
)
    requires
        is_key_for(algorithm, material),
        material_answers(material, algorithm, payload, prehashed, answer),
    ensures
        answer matches Ok(signature) ==> material_verifies(
            material,
            algorithm,
            payload,
            signature,
            prehashed,
        ) == Ok::<bool, HsmErrorView>(true),
        answer matches Ok(signature) ==> algorithm.is_rsa() ==> signature.len() == 256,
        answer is Err ==> !algorithm.is_hmac(),
        answer is Err ==> !prehashed ==> fails_in_signing(algorithm, answer),
        answer is Err ==> prehashed ==> (answer matches Err(HsmErrorView::SigningFailed(_))),
{
    let pem = decode_utf8(material);
    generated_keys_have_public_halves(algorithm, material);
    if algorithm.is_ec() {
        let curve = curve_of(algorithm)->0;
        let der = choose|der: Seq<u8>| #[trigger]
            crypto::holds_der(pem, der) && crypto::ring_ecdsa_key_fault(curve, der) is None;
        assert(ecdsa_private_der(pem) == Ok::<Seq<u8>, HsmErrorView>(der));
    }
    if algorithm.is_rsa() {
        let der = rsa_private_der(pem)->Ok_0;
        assert(crypto::rsa_pkcs8(pem) == Ok::<Seq<u8>, RsaPemFaultView>(der));
    }
    if let Ok(signature) = answer {
        made_signatures_verify(material, algorithm, payload, prehashed, signature);
    }
}

/// The RSA algorithms share one public key.
pub proof fn rsa_algorithms_share_the_public_key(material: Seq<u8>, a: Algorithm, b: Algorithm)
    ensures
        a.is_rsa() && b.is_rsa() ==> exported(material, a) == exported(material, b),
{
}

/// PKCS#1 signatures and HMAC codes do not depend on chance: two answers to the same request under the
/// same key are equal. Nor do elliptic-curve signatures of digests.
pub proof fn signing_without_salt_is_repeatable(
    material: Seq<u8>,
    algorithm: Algorithm,
    payload: Seq<u8>,
    prehashed: bool,
    first: Result<Seq<u8>, HsmErrorView>,
    second: Result<Seq<u8>, HsmErrorView>,
)
    requires
        material_answers(material, algorithm, payload, prehashed, first),
        material_answers(material, algorithm, payload, prehashed, second),
    ensures
        algorithm is Rs256 || algorithm is Rs384 || algorithm is Rs512 || algorithm.is_hmac()
            ==> first == second,
        algorithm.is_ec() && prehashed && first is Ok && second is Ok ==> first == second,
{
}

// ---- What is signed, and what verifies ----

/// An RSA scheme is what its algorithm's name says: it digests with the algorithm's hash function, and
/// under the P names it takes a salt as long as the digest, under the R names none. Two algorithms do
/// not share a scheme, and other algorithms than those of RSA have none.
pub proof fn schemes_fit_their_algorithms(a: Algorithm, b: Algorithm, message: Seq<u8>)
    ensures
        rsa_scheme_of(a) is Some <==> a.is_rsa(),
        rsa_scheme_of(a) matches Some(scheme) ==> crypto::scheme_digest(scheme, message)
            == super::digest(a, message) && crypto::scheme_digest_len(scheme) == super::digest_len(a)
            && crypto::salt_len(scheme) == (if config::is_salted(a) {
            super::digest_len(a)
        } else {
            0
        }),
        a.is_rsa() && rsa_scheme_of(a) == rsa_scheme_of(b) ==> a == b,
        a is Ps256 || a is Ps384 || a is Ps512 <==> config::is_salted(a),
{
    config::names_tell_the_kind_of_key(a);
    config::names_tell_the_kind_of_key(b);
}

/// A curve's signatures are two numbers as long as the digest, and the digest on a curve is the
/// algorithm's. Two algorithms do not share a curve, and other algorithms have none.
pub proof fn curves_fit_their_algorithms(a: Algorithm, b: Algorithm, message: Seq<u8>)
    ensures
        curve_of(a) is Some <==> a.is_ec(),
        curve_of(a) matches Some(curve) ==> crypto::ec_signature_len(curve) == 2
            * super::digest_len(a) && crypto::curve_digest(curve, message) == super::digest(
            a,
            message,
        ) && 2 * crypto::least_digest_len(curve) == super::digest_len(a),
        a.is_ec() && curve_of(a) == curve_of(b) ==> a == b,
{
}

/// Keys on a curve are read, and signatures on it checked and made, by the curve's own crate.
pub proof fn curves_have_their_own_crate(
    pem: Seq<char>,
    der: Seq<u8>,
    digest: Seq<u8>,
    signature: Seq<u8>,
)
    ensures
        crypto::ec_public_pem(Curve::P256, pem) == crypto::p256_public_pem(pem),
        crypto::ec_public_pem(Curve::P384, pem) == crypto::p384_public_pem(pem),
        crypto::ec_verdict(Curve::P256, pem, digest, signature) == crypto::p256_verdict(
            pem,
            digest,
            signature,
        ),
        crypto::ec_verdict(Curve::P384, pem, digest, signature) == crypto::p384_verdict(
            pem,
            digest,
            signature,
        ),
        crypto::ec_digest_signature(Curve::P256, der, digest) == crypto::p256_digest_signature(
            der,
            digest,
        ),
        crypto::ec_digest_signature(Curve::P384, der, digest) == crypto::p384_digest_signature(
            der,
            digest,
        ),
{
}

/// The label of a key names its kind and its size: for RSA the usual modulus to go with the digest,
/// for curves and secrets the bits of the digest.
pub proof fn labels_tell_kind_and_size(a: Algorithm)
    ensures
        key_label(a) == (if a.is_rsa() {
            "RSA-"@ + text::decimal(64 * super::digest_len(a))
        } else if a.is_ec() {
            "EC-P"@ + text::decimal(8 * super::digest_len(a))
        } else {
            "HMAC-"@ + text::decimal(8 * super::digest_len(a))
        }),
{
    reveal_strlit("RSA-2048");
    reveal_strlit("RSA-3072");
    reveal_strlit("RSA-4096");
    reveal_strlit("EC-P256");
    reveal_strlit("EC-P384");
    reveal_strlit("HMAC-256");
    reveal_strlit("HMAC-384");
    reveal_strlit("HMAC-512");
    reveal_strlit("RSA-");
    reveal_strlit("EC-P");
    reveal_strlit("HMAC-");
    reveal_with_fuel(text::decimal, 4);
    let kind = if a.is_rsa() {
        "RSA-"@
    } else if a.is_ec() {
        "EC-P"@
    } else {
        "HMAC-"@
    };
    let size = text::decimal((if a.is_rsa() { 64nat } else { 8nat }) * super::digest_len(a));
    assert(key_label(a) =~= kind + size);
}

/// A key that the backend does not hold is not found, whatever it is wanted for.
pub proof fn unknown_keys_are_not_found(
    hsm: SoftwareHsm,
    key_id: Seq<char>,
    algorithm: Algorithm,
    payload: Seq<u8>,
    signature: Seq<u8>,
    prehashed: bool,
    signed: Result<Seq<u8>, HsmErrorView>,
    verified: Result<bool, HsmErrorView>,
    public: Result<PublicKeyView, HsmErrorView>,
)
    requires
        forall|i: int| 0 <= i < hsm@.len() ==> (#[trigger] hsm@[i]).0 != key_id,
        hsm.may_sign(key_id, algorithm, payload, prehashed, signed),
        hsm.may_verify(key_id, algorithm, payload, signature, prehashed, verified),
        hsm.may_export(key_id, public),
    ensures
        signed == Err::<Seq<u8>, HsmErrorView>(HsmErrorView::KeyNotFound(key_id)),
        verified == Err::<bool, HsmErrorView>(HsmErrorView::KeyNotFound(key_id)),
        public == Err::<PublicKeyView, HsmErrorView>(HsmErrorView::KeyNotFound(key_id)),
{
    string_map::lemma_lookup_none(hsm@, key_id);
}

/// An RSA signature is one that `ring` makes of that very message, with the key that stands under the
/// id, in the algorithm's scheme; and under the key's public half `ring` accepts it for that message.
pub proof fn rsa_signatures_are_of_the_message(
    hsm: SoftwareHsm,
    key_id: Seq<char>,
    algorithm: Algorithm,
    message: Seq<u8>,
    signature: Seq<u8>,
)
    requires
        algorithm.is_rsa(),
        hsm.may_sign(key_id, algorithm, message, false, Ok(signature)),
    ensures
        string_map::lookup(hsm@, key_id) matches Some(key) && {
            let pem = decode_utf8(key.material);
            let scheme = rsa_scheme_of(algorithm)->0;
            &&& key.info.enabled
            &&& valid_utf8(key.material)
            &&& crypto::rsa_pkcs8(pem) matches Ok(der)
            &&& crypto::ring_rsa_key_fault(der) is None
            &&& exists|salt: Seq<u8>|
                salt.len() == crypto::salt_len(scheme) && #[trigger] crypto::ring_rsa_signature(
                    scheme,
                    der,
                    message,
                    salt,
                ) == Some(signature)
            &&& spki_under(pem) matches Some(spki)
            &&& crypto::rsa_pkcs1(spki) matches Some(public)
            &&& crypto::ring_rsa_accepts(scheme, public, message, signature)
            &&& signature.len() == (crypto::rsa_modulus_bits(pem) + 7) as nat / 8
        },
{
    let key = string_map::lookup(hsm@, key_id)->0;
    let pem = decode_utf8(key.material);
    let scheme = rsa_scheme_of(algorithm)->0;
    let der = crypto::rsa_pkcs8(pem)->Ok_0;
    assert(crypto::accepted_under_exports(scheme, der, message, signature));
    assert(crypto::export_accepts(scheme, pem, message, signature));
    if crypto::salt_len(scheme) == 0 {
        assert(Seq::<u8>::empty().len() == crypto::salt_len(scheme));
        assert(crypto::ring_rsa_signature(scheme, der, message, Seq::empty()) == Some(signature));
    } else {
        assert(crypto::is_rsa_signature(scheme, der, message, signature));
    }
}

/// The public half of an RSA private key in PEM, as it is exported.
pub open spec fn spki_under(pem: Seq<char>) -> Option<Seq<u8>> {
    match crypto::rsa_public_pem(pem) {
        Ok(public) => match encoding::base64_bytes(encoding::pem_body(public)) {
            Ok(spki) => Some(spki),
            Err(_) => None,
        },
        Err(_) => None,
    }
}

/// An RSA signature of a digest is one that `rsa` makes of that very digest, with the key that stands
/// under the id, in the algorithm's scheme; and under the key's public half `rsa` accepts it for that
/// digest.
pub proof fn rsa_signatures_are_of_the_digest(
    hsm: SoftwareHsm,
    key_id: Seq<char>,
    algorithm: Algorithm,
    digest: Seq<u8>,
    signature: Seq<u8>,
)
    requires
        algorithm.is_rsa(),
        hsm.may_sign(key_id, algorithm, digest, true, Ok(signature)),
    ensures
        digest.len() == super::digest_len(algorithm),
        string_map::lookup(hsm@, key_id) matches Some(key) && {
            let pem = decode_utf8(key.material);
            let scheme = rsa_scheme_of(algorithm)->0;
            &&& key.info.enabled
            &&& valid_utf8(key.material)
            &&& crypto::rsa_pkcs8(pem) matches Ok(der)
            &&& crypto::ring_rsa_key_fault(der) is None
            &&& exists|salt: Seq<u8>|
                salt.len() == crypto::salt_len(scheme) && #[trigger] crypto::rsa_digest_signature(
                    scheme,
                    pem,
                    digest,
                    salt,
                ) == crypto::made(signature)
            &&& spki_under(pem) matches Some(spki)
            &&& crypto::rsa_pkcs1(spki) matches Some(public)
            &&& crypto::rsa_accepts_digest(scheme, public, digest, signature)
        },
{
    let key = string_map::lookup(hsm@, key_id)->0;
    let pem = decode_utf8(key.material);
    let scheme = rsa_scheme_of(algorithm)->0;
    schemes_fit_their_algorithms(algorithm, algorithm, digest);
    assert(crypto::export_accepts_digest(scheme, pem, digest, signature));
    if crypto::salt_len(scheme) == 0 {
        assert(Seq::<u8>::empty().len() == crypto::salt_len(scheme));
        assert(crypto::rsa_digest_signature(scheme, pem, digest, Seq::empty()) == crypto::made(
            signature,
        ));
    } else {
        let salt = choose|salt: Seq<u8>|
            salt.len() == crypto::salt_len(scheme) && Ok::<Seq<u8>, HsmErrorView>(signature)
                == signing_answer_of(
                #[trigger] crypto::rsa_digest_signature(scheme, pem, digest, salt),
            );
        assert(crypto::rsa_digest_signature(scheme, pem, digest, salt) == crypto::made(signature));
    }
}

/// An elliptic-curve signature is one of that very payload, with the key that stands under the id: a
/// message is signed by `ring`, and a digest by the curve's crate. Under the key's public half the
/// curve's crate accepts it for the message's digest, or for that digest.
pub proof fn ec_signatures_are_of_the_payload(
    hsm: SoftwareHsm,
    key_id: Seq<char>,
    algorithm: Algorithm,
    payload: Seq<u8>,
    prehashed: bool,
    signature: Seq<u8>,
)
    requires
        algorithm.is_ec(),
        hsm.may_sign(key_id, algorithm, payload, prehashed, Ok(signature)),
    ensures
        signature.len() == 2 * super::digest_len(algorithm),
        string_map::lookup(hsm@, key_id) matches Some(key) && {
            let pem = decode_utf8(key.material);
            let curve = curve_of(algorithm)->0;
            &&& key.info.enabled
            &&& valid_utf8(key.material)
            &&& encoding::base64_bytes(encoding::pem_body(pem)) matches Ok(der)
            &&& crypto::ring_ecdsa_key_fault(curve, der) is None
            &&& !prehashed ==> exists|k: nat|
                signature == #[trigger] crypto::ring_ecdsa_signature(curve, der, payload, k)
            &&& prehashed ==> crypto::ec_digest_signature(curve, der, payload) == Ok::<
                Seq<u8>,
                SignFaultView,
            >(signature)
            &&& crypto::is_plain(pem) ==> (crypto::ec_public_pem(curve, pem) matches Ok(public)
                ==> crypto::ec_verdict(
                curve,
                public,
                if prehashed {
                    payload
                } else {
                    super::digest(algorithm, payload)
                },
                signature,
            ) == Ok::<bool, EcFaultView>(true))
        },
{
    let key = string_map::lookup(hsm@, key_id)->0;
    let pem = decode_utf8(key.material);
    let curve = curve_of(algorithm)->0;
    let der = encoding::base64_bytes(encoding::pem_body(pem))->Ok_0;
    if crypto::is_plain(pem) {
        assert(crypto::holds_der(pem, der));
    }
}

/// The code of a payload is the HMAC with the algorithm's hash function, under the secret that stands
/// under the id, of the payload as it is; there always is one.
pub proof fn hmac_codes_are_of_the_payload(
    hsm: SoftwareHsm,
    key_id: Seq<char>,
    algorithm: Algorithm,
    payload: Seq<u8>,
    prehashed: bool,
    answer: Result<Seq<u8>, HsmErrorView>,
)
    requires
        algorithm.is_hmac(),
        hsm.may_sign(key_id, algorithm, payload, prehashed, answer),
    ensures
        string_map::lookup(hsm@, key_id) matches Some(key) ==> key.info.enabled ==> {
            &&& answer matches Ok(code)
            &&& super::digest_len(algorithm) == 32 ==> code == crypto::hmac_sha256(
                key.material,
                payload,
            )
            &&& super::digest_len(algorithm) == 48 ==> code == crypto::hmac_sha384(
                key.material,
                payload,
            )
            &&& super::digest_len(algorithm) == 64 ==> code == crypto::hmac_sha512(
                key.material,
                payload,
            )
        },
{
}

/// An RSA key that is accepted signs every message: in PKCS#1 with what `ring` makes of it, if it
/// makes something; in PSS unless signing fails.
pub proof fn accepted_rsa_keys_sign(
    hsm: SoftwareHsm,
    key_id: Seq<char>,
    algorithm: Algorithm,
    message: Seq<u8>,
    answer: Result<Seq<u8>, HsmErrorView>,
    der: Seq<u8>,
)
    requires
        algorithm.is_rsa(),
        hsm.may_sign(key_id, algorithm, message, false, answer),
        string_map::lookup(hsm@, key_id) matches Some(key) && key.info.enabled && valid_utf8(
            key.material,
        ) && crypto::rsa_pkcs8(decode_utf8(key.material)) == Ok::<Seq<u8>, RsaPemFaultView>(der),
        crypto::ring_rsa_key_fault(der) is None,
    ensures
        !config::is_salted(algorithm) ==> (crypto::ring_rsa_signature(
            rsa_scheme_of(algorithm)->0,
            der,
            message,
            Seq::empty(),
        ) matches Some(signature) ==> answer == Ok::<Seq<u8>, HsmErrorView>(signature)),
        answer matches Err(e) ==> e == HsmErrorView::SigningFailed("Unspecified"@),
{
    schemes_fit_their_algorithms(algorithm, algorithm, message);
}

/// An elliptic-curve key that is accepted signs every message, unless the random source fails.
pub proof fn accepted_ec_keys_sign(
    hsm: SoftwareHsm,
    key_id: Seq<char>,
    algorithm: Algorithm,
    message: Seq<u8>,
    answer: Result<Seq<u8>, HsmErrorView>,
    der: Seq<u8>,
)
    requires
        algorithm.is_ec(),
        hsm.may_sign(key_id, algorithm, message, false, answer),
        string_map::lookup(hsm@, key_id) matches Some(key) && key.info.enabled && valid_utf8(
            key.material,
        ) && encoding::base64_bytes(encoding::pem_body(decode_utf8(key.material))) == Ok::<
            Seq<u8>,
            Seq<char>,
        >(der),
        crypto::ring_ecdsa_key_fault(curve_of(algorithm)->0, der) is None,
    ensures
        answer matches Err(e) ==> (e matches HsmErrorView::SigningFailed(why) && (why
            == "Unspecified"@ || why == "EC P256: "@ + "KeyRejected(\"RNG failed\")"@ || why
            == "EC P384: "@ + "KeyRejected(\"RNG failed\")"@)),
{
}

/// Verification under an RSA key is sound and complete, for signatures of every length: a signature of
/// a message is valid exactly if `ring` accepts it for that message under the exported public key, and
/// one of a digest exactly if `rsa` does and it is no shorter than 256 bytes. What they do not accept is
/// told to be invalid.
pub proof fn rsa_verification_is_exact(
    hsm: SoftwareHsm,
    key_id: Seq<char>,
    algorithm: Algorithm,
    payload: Seq<u8>,
    signature: Seq<u8>,
    prehashed: bool,
    answer: Result<bool, HsmErrorView>,
    public: Seq<u8>,
)
    requires
        algorithm.is_rsa(),
        hsm.may_verify(key_id, algorithm, payload, signature, prehashed, answer),
        string_map::lookup(hsm@, key_id) matches Some(key) && valid_utf8(key.material) && (spki_under(
            decode_utf8(key.material),
        ) matches Some(spki) && crypto::rsa_pkcs1(spki) == Some(public)),
    ensures
        !prehashed ==> answer == Ok::<bool, HsmErrorView>(
            crypto::ring_rsa_accepts(rsa_scheme_of(algorithm)->0, public, payload, signature),
        ),
        prehashed ==> answer == Ok::<bool, HsmErrorView>(
            signature.len() >= 256 && crypto::rsa_accepts_digest(
                rsa_scheme_of(algorithm)->0,
                public,
                payload,
                signature,
            ),
        ),
{
    let key = string_map::lookup(hsm@, key_id)->0;
    let pem = crypto::rsa_public_pem(decode_utf8(key.material))->Ok_0;
    encode_utf8_valid_utf8(pem);
    encode_utf8_decode_utf8(pem);
}

/// Verification under an elliptic-curve key is what the curve's crate says of the signature, under the
/// exported public key, for the message's digest or for the digest that the payload is.
pub proof fn ec_verification_is_exact(
    hsm: SoftwareHsm,
    key_id: Seq<char>,
    algorithm: Algorithm,
    payload: Seq<u8>,
    signature: Seq<u8>,
    prehashed: bool,
    answer: Result<bool, HsmErrorView>,
    public: Seq<char>,
)
    requires
        algorithm.is_ec(),
        hsm.may_verify(key_id, algorithm, payload, signature, prehashed, answer),
        string_map::lookup(hsm@, key_id) matches Some(key) && valid_utf8(key.material)
            && crypto::ec_public_pem(curve_of(algorithm)->0, decode_utf8(key.material)) == Ok::<
            Seq<char>,
            Seq<char>,
        >(public),
        encoding::base64_bytes(encoding::pem_body(public)) is Ok,
    ensures
        match crypto::ec_verdict(
            curve_of(algorithm)->0,
            public,
            if prehashed {
                payload
            } else {
                super::digest(algorithm, payload)
            },
            signature,
        ) {
            Ok(valid) => answer == Ok::<bool, HsmErrorView>(valid),
            Err(_) => answer matches Err(HsmErrorView::VerificationFailed(_)),
        },
        signature.len() != 2 * super::digest_len(algorithm) ==> answer is Err,
{
    encode_utf8_valid_utf8(public);
    encode_utf8_decode_utf8(public);
}

/// A code is valid exactly if it is the HMAC of the payload under the secret that stands under the id.
pub proof fn hmac_verification_is_exact(
    hsm: SoftwareHsm,
    key_id: Seq<char>,
    algorithm: Algorithm,
    payload: Seq<u8>,
    code: Seq<u8>,
    prehashed: bool,
    answer: Result<bool, HsmErrorView>,
)
    requires
        algorithm.is_hmac(),
        hsm.may_verify(key_id, algorithm, payload, code, prehashed, answer),
        string_map::lookup(hsm@, key_id) is Some,
    ensures
        answer matches Ok(valid) && {
            let secret = (string_map::lookup(hsm@, key_id)->0).material;
            &&& super::digest_len(algorithm) == 32 ==> valid == (code == crypto::hmac_sha256(
                secret,
                payload,
            ))
            &&& super::digest_len(algorithm) == 48 ==> valid == (code == crypto::hmac_sha384(
                secret,
                payload,
            ))
            &&& super::digest_len(algorithm) == 64 ==> valid == (code == crypto::hmac_sha512(
                secret,
                payload,
            ))
        },
{
}

/// A public key in PEM verifies by itself what it verifies in the backend: a message's RSA signature
/// exactly if `ring` accepts it for that message, and a digest's exactly if `rsa` does and it is no
/// shorter than 256 bytes. Bytes that are no SPKI are taken for the bare key. An elliptic-curve
/// signature is judged by the curve's crate, and a shared secret has no public key.
pub proof fn public_keys_verify_exactly(
    pem: Seq<char>,
    algorithm: Algorithm,
    payload: Seq<u8>,
    signature: Seq<u8>,
    prehashed: bool,
    der: Seq<u8>,
)
    requires
        encoding::base64_bytes(encoding::pem_body(pem)) == Ok::<Seq<u8>, Seq<char>>(der),
    ensures
        ({
            let answer = verification(encode_utf8(pem), algorithm, payload, signature, prehashed);
            let key = match crypto::rsa_pkcs1(der) {
                Some(key) => key,
                None => der,
            };
            &&& rsa_scheme_of(algorithm) matches Some(scheme) ==> !prehashed ==> answer == Ok::<
                bool,
                HsmErrorView,
            >(crypto::ring_rsa_accepts(scheme, key, payload, signature))
            &&& rsa_scheme_of(algorithm) matches Some(scheme) ==> prehashed ==> answer == Ok::<
                bool,
                HsmErrorView,
            >(
                signature.len() >= 256 && crypto::rsa_accepts_digest(
                    scheme,
                    key,
                    payload,
                    signature,
                ),
            )
            &&& curve_of(algorithm) matches Some(curve) ==> match crypto::ec_verdict(
                curve,
                pem,
                if prehashed {
                    payload
                } else {
                    super::digest(algorithm, payload)
                },
                signature,
            ) {
                Ok(valid) => answer == Ok::<bool, HsmErrorView>(valid),
                Err(_) => answer is Err,
            }
            &&& algorithm.is_hmac() ==> answer is Err
        }),
{
    encode_utf8_valid_utf8(pem);
    encode_utf8_decode_utf8(pem);
}

// ---- What is held, listed and handed out ----

/// What the backend holds under an id is a loaded key, as it was configured and read: the last enabled
/// one with that id.
pub proof fn held_keys_are_as_loaded(keys: Seq<LoadedKeyView>, i: int)
    requires
        0 <= i < keys.len(),
        keys[i].config.enabled,
        forall|j: int|
            i < j < keys.len() && (#[trigger] keys[j]).config.enabled ==> keys[j].config.id
                != keys[i].config.id,
    ensures
        string_map::lookup(held(keys), keys[i].config.id) matches Some(key) && {
            &&& key.material == keys[i].material
            &&& key.info.id == keys[i].config.id
            &&& key.info.description == keys[i].config.description
            &&& key.info.algorithm == config::configured(keys[i].config.algorithm)
            &&& key.info.enabled
            &&& key.info.key_type == key_label(config::configured(keys[i].config.algorithm))
        },
{
    held_under_id(keys, keys[i].config.id);
    lemma_last_with_id(keys, i);
}

proof fn lemma_last_with_id(keys: Seq<LoadedKeyView>, i: int)
    requires
        0 <= i < keys.len(),
        keys[i].config.enabled,
        forall|j: int|
            i < j < keys.len() && (#[trigger] keys[j]).config.enabled ==> keys[j].config.id
                != keys[i].config.id,
    ensures
        last_with_id(keys, keys[i].config.id) == Some(keys[i]),
    decreases keys.len(),
{
    if i < keys.len() - 1 {
        let fewer = keys.drop_last();
        assert forall|j: int|
            i < j < fewer.len() && (#[trigger] fewer[j]).config.enabled implies fewer[j].config.id
            != fewer[i].config.id by {
            assert(fewer[j] == keys[j]);
        }
        assert(keys[keys.len() - 1] == keys.last());
        lemma_last_with_id(fewer, i);
    }
}

/// The list tells of every held key, in the order of the keys, and of nothing else.
pub proof fn lists_tell_of_every_key(
    hsm: SoftwareHsm,
    answer: Result<Seq<KeyInfoView>, HsmErrorView>,
    i: int,
)
    requires
        hsm.may_list(answer),
    ensures
        answer matches Ok(list) && list.len() == hsm@.len() && (0 <= i < hsm@.len() ==> list[i]
            == hsm@[i].1.info),
{
}

/// What is handed out of a key is its public half, in the key's own algorithm and under its own id and
/// type; of a shared secret it is the secret, marked as such.
pub proof fn handed_out_keys_are_the_public_halves(
    hsm: SoftwareHsm,
    key_id: Seq<char>,
    answer: Result<PublicKeyView, HsmErrorView>,
)
    requires
        hsm.may_export(key_id, answer),
        string_map::lookup(hsm@, key_id) is Some,
    ensures
        ({
            let key = string_map::lookup(hsm@, key_id)->0;
            let algorithm = key.info.algorithm;
            let text = decode_utf8(key.material);
            &&& answer matches Ok(public) ==> {
                &&& valid_utf8(key.material)
                &&& public.key_id == key_id
                &&& public.algorithm == algorithm
                &&& public.key_type == key.info.key_type
                &&& algorithm.is_rsa() ==> crypto::rsa_public_pem(text) == Ok::<
                    Seq<char>,
                    Seq<char>,
                >(public.pem)
                &&& curve_of(algorithm) matches Some(curve) ==> crypto::ec_public_pem(curve, text)
                    == Ok::<Seq<char>, Seq<char>>(public.pem)
                &&& algorithm.is_hmac() ==> public.pem == "-----BEGIN SYMMETRIC KEY-----\n"@
                    + encoding::base64_text(key.material) + "\n-----END SYMMETRIC KEY-----\n"@
            }
            &&& answer is Err ==> !valid_utf8(key.material) || (algorithm.is_rsa()
                && crypto::rsa_public_pem(text) is Err) || (algorithm.is_ec()
                && crypto::ec_public_pem(curve_of(algorithm)->0, text) is Err)
            &&& answer matches Err(e) ==> e is BackendError
        }),
{
}

/// A key's file stands in the key directory, under the key's reference. Slashes at the end of the
/// directory make no difference.
pub proof fn key_paths_are_in_the_directory(dir: Seq<char>, reference: Seq<char>)
    ensures
        dir.len() > 0 && dir.last() != '/' ==> key_path(dir, reference) == dir + "/"@ + reference
            + ".pem"@,
        key_path(dir.push('/'), reference) == key_path(dir, reference),
{
    assert(dir.push('/').drop_last() =~= dir);
}

/// An RSA key that is accepted signs every digest of the algorithm's length: in PKCS#1 with what `rsa`
/// makes of it, if it makes something. A digest of another length is refused.
pub proof fn accepted_rsa_keys_sign_digests(
    hsm: SoftwareHsm,
    key_id: Seq<char>,
    algorithm: Algorithm,
    digest: Seq<u8>,
    answer: Result<Seq<u8>, HsmErrorView>,
    der: Seq<u8>,
)
    requires
        algorithm.is_rsa(),
        hsm.may_sign(key_id, algorithm, digest, true, answer),
        string_map::lookup(hsm@, key_id) matches Some(key) && key.info.enabled && valid_utf8(
            key.material,
        ) && crypto::rsa_pkcs8(decode_utf8(key.material)) == Ok::<Seq<u8>, RsaPemFaultView>(der),
        crypto::ring_rsa_key_fault(der) is None,
    ensures
        digest.len() != super::digest_len(algorithm) ==> answer == Err::<Seq<u8>, HsmErrorView>(
            HsmErrorView::SigningFailed("input must be hashed"@),
        ),
        digest.len() == super::digest_len(algorithm) && !config::is_salted(algorithm) ==> (
        crypto::rsa_digest_signature(
            rsa_scheme_of(algorithm)->0,
            decode_utf8((string_map::lookup(hsm@, key_id)->0).material),
            digest,
            Seq::empty(),
        ) matches Ok(signature) ==> answer == Ok::<Seq<u8>, HsmErrorView>(signature)),
        answer matches Err(e) ==> e is SigningFailed,
{
    schemes_fit_their_algorithms(algorithm, algorithm, digest);
}

/// An elliptic-curve key that is accepted signs every digest that the curve's crate signs, unless the
/// random source fails as the key is taken in.
pub proof fn accepted_ec_keys_sign_digests(
    hsm: SoftwareHsm,
    key_id: Seq<char>,
    algorithm: Algorithm,
    digest: Seq<u8>,
    answer: Result<Seq<u8>, HsmErrorView>,
    der: Seq<u8>,
)
    requires
        algorithm.is_ec(),
        hsm.may_sign(key_id, algorithm, digest, true, answer),
        string_map::lookup(hsm@, key_id) matches Some(key) && key.info.enabled && valid_utf8(
            key.material,
        ) && encoding::base64_bytes(encoding::pem_body(decode_utf8(key.material))) == Ok::<
            Seq<u8>,
            Seq<char>,
        >(der),
        crypto::ring_ecdsa_key_fault(curve_of(algorithm)->0, der) is None,
    ensures
        crypto::ec_digest_signature(curve_of(algorithm)->0, der, digest) matches Ok(signature)
            ==> answer == Ok::<Seq<u8>, HsmErrorView>(signature) || (answer matches Err(
            HsmErrorView::SigningFailed(why),
        ) && (why == "EC P256: "@ + "KeyRejected(\"RNG failed\")"@ || why == "EC P384: "@
            + "KeyRejected(\"RNG failed\")"@)),
        crypto::ec_digest_signature(curve_of(algorithm)->0, der, digest) is Err ==> answer is Err,
{
}

/// A key that is not accepted signs nothing, and neither does key material that is no key.
pub proof fn rejected_keys_sign_nothing(
    hsm: SoftwareHsm,
    key_id: Seq<char>,
    algorithm: Algorithm,
    payload: Seq<u8>,
    prehashed: bool,
    answer: Result<Seq<u8>, HsmErrorView>,
)
    requires
        hsm.may_sign(key_id, algorithm, payload, prehashed, answer),
        string_map::lookup(hsm@, key_id) matches Some(key) && key.info.enabled && {
            let pem = decode_utf8(key.material);
            ||| !algorithm.is_hmac() && !valid_utf8(key.material)
            ||| algorithm.is_rsa() && !crypto::is_taken(pem)
            ||| algorithm.is_ec() && (encoding::base64_bytes(encoding::pem_body(pem)) matches Ok(
                der,
            ) ==> crypto::ring_ecdsa_key_fault(curve_of(algorithm)->0, der) is Some)
        },
    ensures
        answer matches Err(HsmErrorView::SigningFailed(_)),
{
}

/// A generated key has the size that its kind asks for: a shared secret is as long as the digest, an
/// RSA modulus has 2048 bits, and an elliptic-curve key lies on the algorithm's curve.
pub proof fn generated_keys_have_their_size(algorithm: Algorithm, material: Seq<u8>)
    requires
        is_key_for(algorithm, material),
    ensures
        algorithm.is_hmac() ==> material.len() == super::digest_len(algorithm),
        algorithm.is_rsa() ==> crypto::rsa_modulus_bits(decode_utf8(material)) == 2048
            && crypto::is_taken(decode_utf8(material)),
        algorithm is Es256 ==> crypto::p256_public_pem(decode_utf8(material)) is Ok,
        algorithm is Es384 ==> crypto::p384_public_pem(decode_utf8(material)) is Ok,
{
}

/// Without a public key nothing is verified: what keeps the public key from being exported is told.
pub proof fn verification_needs_the_public_key(
    hsm: SoftwareHsm,
    key_id: Seq<char>,
    algorithm: Algorithm,
    payload: Seq<u8>,
    signature: Seq<u8>,
    prehashed: bool,
    answer: Result<bool, HsmErrorView>,
)
    requires
        !algorithm.is_hmac(),
        hsm.may_verify(key_id, algorithm, payload, signature, prehashed, answer),
        string_map::lookup(hsm@, key_id) matches Some(key) && {
            let text = decode_utf8(key.material);
            ||| !valid_utf8(key.material)
            ||| algorithm.is_rsa() && crypto::rsa_public_pem(text) is Err
            ||| algorithm.is_ec() && crypto::ec_public_pem(curve_of(algorithm)->0, text) is Err
        },
    ensures
        answer matches Err(HsmErrorView::BackendError(_)),
{
}

/// One more key that is loaded comes last among those that are held if its id is new, and takes the
/// place of the one with its id if there is one; the others stay. A disabled key changes nothing.
pub proof fn loading_one_more_key(keys: Seq<LoadedKeyView>, key: LoadedKeyView, i: int)
    ensures
        !key.config.enabled ==> held(keys.push(key)) == held(keys),
        key.config.enabled && (forall|j: int|
            0 <= j < held(keys).len() ==> (#[trigger] held(keys)[j]).0 != key.config.id) ==> held(
            keys.push(key),
        ).len() == held(keys).len() + 1 && (0 <= i < held(keys).len() ==> held(keys.push(key))[i]
            == held(keys)[i]) && held(keys.push(key)).last().0 == key.config.id && held(
            keys.push(key),
        ).last().1.material == key.material,
        key.config.enabled && 0 <= i < held(keys).len() && held(keys)[i].0 == key.config.id
            ==> held(keys.push(key)).len() == held(keys).len() && held(keys.push(key))[i].0
            == key.config.id && held(keys.push(key))[i].1.material == key.material,
{
    let before = held(keys);
    let more = keys.push(key);
    assert(more.drop_last() =~= keys);
    assert(more.last() == key);
    if key.config.enabled {
        if forall|j: int| 0 <= j < before.len() ==> (#[trigger] before[j]).0 != key.config.id {
            string_map::lemma_upsert_push(before, key.config.id, stored(key));
        } else if 0 <= i < before.len() && before[i].0 == key.config.id {
            held_keys_are_enabled(keys);
            assert forall|j: int| 0 <= j < i implies (#[trigger] before[j]).0 != key.config.id by {
                assert(before[j].0 != before[i].0);
            }
            string_map::lemma_upsert_update(before, key.config.id, stored(key), i);
        }
    }
}

/// The files stand in the order of the keys: one more key that is enabled adds its file at the end, and
/// a disabled one adds none.
pub proof fn files_stand_in_the_order_of_the_keys(
    key_dir: Seq<char>,
    keys: Seq<KeyConfigView>,
    key: KeyConfigView,
)
    ensures
        key.enabled ==> files_of(key_dir, keys.push(key)).drop_last() == files_of(key_dir, keys)
            && files_of(key_dir, keys.push(key)).last().config == key,
        !key.enabled ==> files_of(key_dir, keys.push(key)) == files_of(key_dir, keys),
{
    assert(keys.push(key).drop_last() =~= keys);
    if key.enabled {
        assert(files_of(key_dir, keys.push(key)).drop_last() =~= files_of(key_dir, keys));
    }
}

/// What is found in a file is all of its bytes, be they none; a missing file is not taken for an empty
/// one. What is written is what was generated.
pub proof fn files_are_taken_as_they_are(bytes: Vec<u8>, e: String, write: KeyWrite)
    ensures
        found(KeyFileOutcome::Found(bytes)) == Some(bytes@),
        found(KeyFileOutcome::Absent) is None,
        found(KeyFileOutcome::Unreadable(e)) is None,
        write_of(Some(write)) == Some((write.path@, write.bytes@)),
        write_of(None) is None,
{
}

/// A key whose file is missing is generated for the algorithm that it is configured with.
pub proof fn new_keys_fit_their_configuration(
    disk: Map<Seq<char>, Seq<u8>>,
    file: KeyFileView,
    material: Seq<u8>,
)
    requires
        !disk.contains_key(file.path),
        may_load(disk, seq![file], seq![material]),
    ensures
        is_key_for(config::configured(file.config.algorithm), material),
        disk_after(disk, seq![file], seq![material]) == disk.insert(file.path, material),
{
    assert(seq![file].drop_last() =~= Seq::empty());
    assert(seq![material].drop_last() =~= Seq::empty());
}

/// A public key that is no text, or that holds no base64, verifies nothing, and that is told.
pub proof fn unreadable_public_keys_are_told(
    key: Seq<u8>,
    algorithm: Algorithm,
    payload: Seq<u8>,
    signature: Seq<u8>,
    prehashed: bool,
)
    requires
        !valid_utf8(key) || encoding::base64_bytes(encoding::pem_body(decode_utf8(key))) is Err,
    ensures
        verification(key, algorithm, payload, signature, prehashed) matches Err(
            HsmErrorView::VerificationFailed(_),
        ),
{
}

} // verus!
