//! The trusted boundary to openssl: key generation, key and certificate
//! parsing, and distinguished-name encoding. Each function makes one call
//! into openssl and converts between openssl values and plain bytes; what a
//! deterministic call returns is given a name that the callers' contracts
//! speak of.

use vstd::prelude::*;

use crate::x509::{Csr, CsrView};
use crate::PkiError;

verus! {

/// What parsing a DER-encoded certificate signing request yields: the
/// request's declared version, its subject name as DER, and its public key
/// as DER; nothing, when the bytes are not a well-formed request. A function
/// of the bytes alone.
pub uninterp spec fn csr_from_der(der: Seq<u8>) -> Option<CsrView>;

/// What loading a PKCS#8 PEM private key and re-encoding its public half as
/// DER yields; nothing, when the bytes are not a loadable private key. A
/// function of the bytes alone.
pub uninterp spec fn public_key_of(key_pem: Seq<u8>) -> Option<Seq<u8>>;

/// What parsing a PEM certificate and re-encoding its subject name as DER
/// yields; nothing, when the bytes are not a loadable certificate. A
/// function of the bytes alone.
pub uninterp spec fn cert_pem_subject(pem: Seq<u8>) -> Option<Seq<u8>>;

/// What parsing a PEM certificate and re-encoding its issuer name as DER
/// yields; nothing, when the bytes are not a loadable certificate. A
/// function of the bytes alone.
pub uninterp spec fn cert_pem_issuer(pem: Seq<u8>) -> Option<Seq<u8>>;

/// The DER encoding of a two-entry distinguished name (common name and
/// organization); a function of the two strings alone.
pub uninterp spec fn name_der(common_name: Seq<char>, organization: Seq<char>) -> Option<Seq<u8>>;

/// Relies on openssl's `Rsa::generate` for a fresh 2048-bit key pair and on
/// `PKey::private_key_to_pem_pkcs8` for its encoding. The result is random;
/// what is stated of every outcome: the PEM framing is non-empty, far below
/// the loader's length limit, and a freshly written PKCS#8 key loads back.
#[verifier::external_body]
pub fn create_new_key() -> (r: Result<Vec<u8>, PkiError>)
    ensures
        r is Ok ==> r->Ok_0@.len() > 0,
        r is Ok ==> public_key_of(r->Ok_0@) is Some,
        r is Err ==> r->Err_0 == PkiError::Crypto,
{
    let rsa = openssl::rsa::Rsa::generate(2048).map_err(|_| PkiError::Crypto)?;
    let key = openssl::pkey::PKey::from_rsa(rsa).map_err(|_| PkiError::Crypto)?;
    key.private_key_to_pem_pkcs8().map_err(|_| PkiError::Crypto)
}

/// Relies on openssl's `X509Req::from_der`; the accessors `version`,
/// `subject_name` and `public_key` only move the parsed fields into plain
/// values, with `X509Name::to_der` and `PKey::public_key_to_der` as their
/// encodings.
#[verifier::external_body]
pub(crate) fn parse_csr_der(der: &[u8]) -> (r: Result<Csr, PkiError>)
    ensures
        r is Ok <==> csr_from_der(der@) is Some,
        r is Ok ==> r->Ok_0@ == csr_from_der(der@)->Some_0,
        r is Err ==> r->Err_0 == PkiError::Parse,
{
    let req = openssl::x509::X509Req::from_der(der).map_err(|_| PkiError::Parse)?;
    let subject_der = req.subject_name().to_der().map_err(|_| PkiError::Parse)?;
    let key = req.public_key().map_err(|_| PkiError::Parse)?;
    let public_key_der = key.public_key_to_der().map_err(|_| PkiError::Parse)?;
    Ok(Csr { version: req.version(), subject_der, public_key_der })
}

/// Relies on openssl's `PKey::private_key_from_pem`, with
/// `public_key_to_der` as the encoding of the key's public half. The
/// binding's reader asserts that its input fits a C `int`, so longer inputs
/// are refused here as this function's own error instead of reaching it.
#[verifier::external_body]
pub(crate) fn public_key_der_of(key_pem: &[u8]) -> (r: Result<Vec<u8>, PkiError>)
    ensures
        r is Ok <==> public_key_of(key_pem@) is Some,
        r is Ok ==> r->Ok_0@ == public_key_of(key_pem@)->Some_0,
        r is Err ==> r->Err_0 == PkiError::Crypto,
{
    if key_pem.len() > i32::MAX as usize {
        return Err(PkiError::Crypto);
    }
    let key = openssl::pkey::PKey::private_key_from_pem(key_pem).map_err(|_| PkiError::Crypto)?;
    key.public_key_to_der().map_err(|_| PkiError::Crypto)
}

/// Relies on openssl's `X509::from_pem`, with `X509Name::to_der` as the
/// encoding of the certificate's subject name. The binding's reader asserts
/// that its input fits a C `int`, so longer inputs are refused here as this
/// function's own error instead of reaching it.
#[verifier::external_body]
pub(crate) fn parse_cert_subject(pem: &[u8]) -> (r: Result<Vec<u8>, PkiError>)
    ensures
        r is Ok <==> cert_pem_subject(pem@) is Some,
        r is Ok ==> r->Ok_0@ == cert_pem_subject(pem@)->Some_0,
        r is Err ==> r->Err_0 == PkiError::Parse,
{
    if pem.len() > i32::MAX as usize {
        return Err(PkiError::Parse);
    }
    let cert = openssl::x509::X509::from_pem(pem).map_err(|_| PkiError::Parse)?;
    cert.subject_name().to_der().map_err(|_| PkiError::Parse)
}

/// Relies on openssl's `X509::from_pem`, with `X509Name::to_der` as the
/// encoding of the certificate's issuer name. The binding's reader asserts
/// that its input fits a C `int`, so longer inputs are refused here as this
/// function's own error instead of reaching it.
#[verifier::external_body]
pub(crate) fn parse_cert_issuer(pem: &[u8]) -> (r: Result<Vec<u8>, PkiError>)
    ensures
        r is Ok <==> cert_pem_issuer(pem@) is Some,
        r is Ok ==> r->Ok_0@ == cert_pem_issuer(pem@)->Some_0,
        r is Err ==> r->Err_0 == PkiError::Parse,
{
    if pem.len() > i32::MAX as usize {
        return Err(PkiError::Parse);
    }
    let cert = openssl::x509::X509::from_pem(pem).map_err(|_| PkiError::Parse)?;
    cert.issuer_name().to_der().map_err(|_| PkiError::Parse)
}

/// Relies on openssl's `X509NameBuilder` to encode a two-entry name as DER.
/// `append_entry_by_nid` asserts that an entry fits a C `int`, so longer
/// entries are refused here as this function's own error instead of
/// reaching it; `build` re-reads the builder's own DER and cannot fail on a
/// name this function has just assembled.
#[verifier::external_body]
pub(crate) fn build_name_der(common_name: &str, organization: &str) -> (r: Result<
    Vec<u8>,
    PkiError,
>)
    ensures
        r is Ok <==> name_der(common_name@, organization@) is Some,
        r is Ok ==> r->Ok_0@ == name_der(common_name@, organization@)->Some_0,
        r is Err ==> r->Err_0 == PkiError::Crypto,
{
    if common_name.len() > i32::MAX as usize || organization.len() > i32::MAX as usize {
        return Err(PkiError::Crypto);
    }
    let mut builder = openssl::x509::X509Name::builder().map_err(|_| PkiError::Crypto)?;
    builder
        .append_entry_by_nid(openssl::nid::Nid::COMMONNAME, common_name)
        .map_err(|_| PkiError::Crypto)?;
    builder
        .append_entry_by_nid(openssl::nid::Nid::ORGANIZATIONNAME, organization)
        .map_err(|_| PkiError::Crypto)?;
    builder.build().to_der().map_err(|_| PkiError::Crypto)
}

} // verus!
