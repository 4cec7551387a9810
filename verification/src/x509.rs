//! In-memory model of the X.509 material the issuance engine decides on:
//! subjects and keys as opaque DER bytes, everything else as plain values.

use vstd::prelude::*;

use crate::pem;

verus! {

/// The PEM label of a certificate.
pub open spec fn cert_label_spec() -> Seq<u8> {
    seq![67u8, 69u8, 82u8, 84u8, 73u8, 70u8, 73u8, 67u8, 65u8, 84u8, 69u8]
}

/// The PEM label of a certificate signing request.
pub open spec fn csr_label_spec() -> Seq<u8> {
    seq![
        67u8,
        69u8,
        82u8,
        84u8,
        73u8,
        70u8,
        73u8,
        67u8,
        65u8,
        84u8,
        69u8,
        32u8,
        82u8,
        69u8,
        81u8,
        85u8,
        69u8,
        83u8,
        84u8,
    ]
}

/// `CERTIFICATE`, as bytes.
pub fn cert_label() -> (v: Vec<u8>)
    ensures
        v@ == cert_label_spec(),
{
    let a: [u8; 11] = [67, 69, 82, 84, 73, 70, 73, 67, 65, 84, 69];
    let mut v: Vec<u8> = Vec::new();
    pem::push_bytes(&mut v, a.as_slice());
    proof {
        assert(v@ =~= cert_label_spec());
    }
    v
}

/// `CERTIFICATE REQUEST`, as bytes.
pub fn csr_label() -> (v: Vec<u8>)
    ensures
        v@ == csr_label_spec(),
{
    let a: [u8; 19] = [
        67,
        69,
        82,
        84,
        73,
        70,
        73,
        67,
        65,
        84,
        69,
        32,
        82,
        69,
        81,
        85,
        69,
        83,
        84,
    ];
    let mut v: Vec<u8> = Vec::new();
    pem::push_bytes(&mut v, a.as_slice());
    proof {
        assert(v@ =~= csr_label_spec());
    }
    v
}

/// The basic-constraints extension: whether the holder is itself an authority.
#[derive(Clone, Copy, Debug, PartialEq, Eq, Structural)]
pub struct BasicConstraints {
    pub ca: bool,
    pub critical: bool,
}

/// The key-usage extension flags the engine decides on.
#[derive(Clone, Copy, Debug, PartialEq, Eq, Structural)]
pub struct KeyUsage {
    pub critical: bool,
    pub digital_signature: bool,
    pub non_repudiation: bool,
    pub key_encipherment: bool,
    pub key_cert_sign: bool,
    pub crl_sign: bool,
}

/// The extended-key-usage extension flags the engine decides on.
#[derive(Clone, Copy, Debug, PartialEq, Eq, Structural)]
pub struct ExtendedKeyUsage {
    pub client_auth: bool,
    pub server_auth: bool,
}

/// A certificate signing request, reduced to the fields the engine copies.
#[derive(Clone, Debug, PartialEq, Eq)]
pub struct Csr {
    pub version: i32,
    pub subject_der: Vec<u8>,
    pub public_key_der: Vec<u8>,
}

/// Mathematical image of a `Csr`.
pub struct CsrView {
    pub version: i32,
    pub subject_der: Seq<u8>,
    pub public_key_der: Seq<u8>,
}

impl View for Csr {
    type V = CsrView;

    open spec fn view(&self) -> CsrView {
        CsrView {
            version: self.version,
            subject_der: self.subject_der@,
            public_key_der: self.public_key_der@,
        }
    }
}

/// Every field of a certificate that the engine decides; rendering this
/// value into signed DER is the only step left to the crypto layer.
/// Validity is expressed in whole days counted from the moment of issuance.
#[derive(Clone, Debug, PartialEq, Eq)]
pub struct Certificate {
    pub version: i32,
    pub serial: u32,
    pub subject_der: Vec<u8>,
    pub issuer_der: Vec<u8>,
    pub public_key_der: Vec<u8>,
    pub not_before_days: u32,
    pub not_after_days: u32,
    pub basic_constraints: BasicConstraints,
    pub key_usage: KeyUsage,
    pub extended_key_usage: Option<ExtendedKeyUsage>,
    pub subject_key_identifier: bool,
    pub authority_key_identifier: bool,
}

/// Mathematical image of a `Certificate`.
pub struct CertificateView {
    pub version: i32,
    pub serial: u32,
    pub subject_der: Seq<u8>,
    pub issuer_der: Seq<u8>,
    pub public_key_der: Seq<u8>,
    pub not_before_days: u32,
    pub not_after_days: u32,
    pub basic_constraints: BasicConstraints,
    pub key_usage: KeyUsage,
    pub extended_key_usage: Option<ExtendedKeyUsage>,
    pub subject_key_identifier: bool,
    pub authority_key_identifier: bool,
}

impl View for Certificate {
    type V = CertificateView;

    open spec fn view(&self) -> CertificateView {
        CertificateView {
            version: self.version,
            serial: self.serial,
            subject_der: self.subject_der@,
            issuer_der: self.issuer_der@,
            public_key_der: self.public_key_der@,
            not_before_days: self.not_before_days,
            not_after_days: self.not_after_days,
            basic_constraints: self.basic_constraints,
            key_usage: self.key_usage,
            extended_key_usage: self.extended_key_usage,
            subject_key_identifier: self.subject_key_identifier,
            authority_key_identifier: self.authority_key_identifier,
        }
    }
}

/// A certificate is self-signed when it names itself as its issuer.
pub open spec fn self_signed(c: CertificateView) -> bool {
    c.subject_der == c.issuer_der
}

/// Validity window of every issued certificate: five years from issuance.
pub const VALIDITY_DAYS: u32 = 1825;

/// Key usage granted to every leaf: signatures and key transport, critical.
pub open spec fn leaf_key_usage() -> KeyUsage {
    KeyUsage {
        critical: true,
        digital_signature: true,
        non_repudiation: true,
        key_encipherment: true,
        key_cert_sign: false,
        crl_sign: false,
    }
}

/// Key usage granted to the root: certificate and list signing, critical.
pub open spec fn ca_key_usage() -> KeyUsage {
    KeyUsage {
        critical: true,
        digital_signature: false,
        non_repudiation: false,
        key_encipherment: false,
        key_cert_sign: true,
        crl_sign: true,
    }
}

/// The fixed leaf policy: subject, public key and version come verbatim from
/// the request; the issuer is the authority; the extension template is fixed
/// and ignores whatever extensions the request may carry.
pub open spec fn leaf_certificate(csr: CsrView, ca_subject: Seq<u8>, serial: u32) -> CertificateView {
    CertificateView {
        version: csr.version,
        serial: serial,
        subject_der: csr.subject_der,
        issuer_der: ca_subject,
        public_key_der: csr.public_key_der,
        not_before_days: 0,
        not_after_days: VALIDITY_DAYS,
        basic_constraints: BasicConstraints { ca: false, critical: false },
        key_usage: leaf_key_usage(),
        extended_key_usage: Some(ExtendedKeyUsage { client_auth: true, server_auth: true }),
        subject_key_identifier: true,
        authority_key_identifier: true,
    }
}

/// The fixed root policy: a version-3 self-signed certificate that may sign
/// certificates, with no extended key usage.
pub open spec fn root_certificate(subject: Seq<u8>, public_key: Seq<u8>, serial: u32) -> CertificateView {
    CertificateView {
        version: 2,
        serial: serial,
        subject_der: subject,
        issuer_der: subject,
        public_key_der: public_key,
        not_before_days: 0,
        not_after_days: VALIDITY_DAYS,
        basic_constraints: BasicConstraints { ca: true, critical: true },
        key_usage: ca_key_usage(),
        extended_key_usage: None,
        subject_key_identifier: true,
        authority_key_identifier: false,
    }
}

/// Decides every field of the certificate issued for a signing request.
pub fn sign_csr(csr: &Csr, ca_subject_der: &Vec<u8>, serial: u32) -> (c: Certificate)
    ensures
        c@ == leaf_certificate(csr@, ca_subject_der@, serial),
{
    let c = Certificate {
        version: csr.version,
        serial: serial,
        subject_der: csr.subject_der.clone(),
        issuer_der: ca_subject_der.clone(),
        public_key_der: csr.public_key_der.clone(),
        not_before_days: 0,
        not_after_days: VALIDITY_DAYS,
        basic_constraints: BasicConstraints { ca: false, critical: false },
        key_usage: KeyUsage {
            critical: true,
            digital_signature: true,
            non_repudiation: true,
            key_encipherment: true,
            key_cert_sign: false,
            crl_sign: false,
        },
        extended_key_usage: Some(ExtendedKeyUsage { client_auth: true, server_auth: true }),
        subject_key_identifier: true,
        authority_key_identifier: true,
    };
    proof {
        assert(c@.subject_der =~= csr@.subject_der);
        assert(c@.issuer_der =~= ca_subject_der@);
        assert(c@.public_key_der =~= csr@.public_key_der);
    }
    c
}

/// Decides every field of a new self-signed root certificate.
pub fn create_new_ca(serial: u32, subject_der: Vec<u8>, public_key_der: Vec<u8>) -> (c: Certificate)
    ensures
        c@ == root_certificate(subject_der@, public_key_der@, serial),
        self_signed(c@),
        c@.basic_constraints.ca,
{
    let issuer_der = subject_der.clone();
    let c = Certificate {
        version: 2,
        serial: serial,
        subject_der: subject_der,
        issuer_der: issuer_der,
        public_key_der: public_key_der,
        not_before_days: 0,
        not_after_days: VALIDITY_DAYS,
        basic_constraints: BasicConstraints { ca: true, critical: true },
        key_usage: KeyUsage {
            critical: true,
            digital_signature: false,
            non_repudiation: false,
            key_encipherment: false,
            key_cert_sign: true,
            crl_sign: true,
        },
        extended_key_usage: None,
        subject_key_identifier: true,
        authority_key_identifier: false,
    };
    c
}

} // verus!
