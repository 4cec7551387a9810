//! The service facade: the optional shared-secret authorization check, the
//! two exposed operations, and the translation of core failures into the
//! transport's fault signals.

use vstd::prelude::*;

use crate::ca::CaState;
use crate::crypto;
use crate::pem;
use crate::storage::{allocate_next_serial, counter_of, opt_bytes_view, StorageRecord};
use crate::x509;
use crate::x509::Certificate;
use crate::PkiError;

verus! {

/// The three fault signals the transport distinguishes.
#[derive(Clone, Copy, Debug, PartialEq, Eq, Structural)]
pub enum FaultCode {
    /// The caller is not allowed: missing or mismatched credential.
    PermissionDenied,
    /// The caller's input is malformed.
    InvalidArgument,
    /// The service failed on its own side.
    Internal,
}

/// How each core failure surfaces to callers.
pub open spec fn fault_spec(e: PkiError) -> FaultCode {
    match e {
        PkiError::Auth => FaultCode::PermissionDenied,
        PkiError::Parse => FaultCode::InvalidArgument,
        PkiError::Storage => FaultCode::Internal,
        PkiError::Crypto => FaultCode::Internal,
    }
}

/// Translates a core failure into its fault signal.
pub fn fault_of(e: PkiError) -> (f: FaultCode)
    ensures
        f == fault_spec(e),
{
    match e {
        PkiError::Auth => FaultCode::PermissionDenied,
        PkiError::Parse => FaultCode::InvalidArgument,
        PkiError::Storage => FaultCode::Internal,
        PkiError::Crypto => FaultCode::Internal,
    }
}

/// The view of an optional borrowed byte string.
pub open spec fn opt_cred_view(o: Option<&Vec<u8>>) -> Option<Seq<u8>> {
    match o {
        None => None,
        Some(v) => Some(v@),
    }
}

/// A call is allowed when no key is configured, or when it carries exactly
/// the configured key.
pub open spec fn authorized(api_key: Option<Seq<u8>>, credential: Option<Seq<u8>>) -> bool {
    match api_key {
        None => true,
        Some(k) => credential == Some(k),
    }
}

/// The service: the authority's cached material, the storage record image,
/// and the optional shared secret.
pub struct PkiService {
    pub ca: CaState,
    pub record: StorageRecord,
    pub api_key: Option<Vec<u8>>,
}

impl PkiService {
    /// The facade is well-formed when its cached root state is: the cached
    /// subject is the certificate's own, and the certificate is
    /// self-signed. `ca::bootstrap_finish` establishes this; the methods
    /// below never touch the cached state, so it is carried for the life of
    /// the service.
    pub open spec fn wf(self) -> bool {
        self.ca.wf()
    }

    /// Builds the service around bootstrapped state.
    pub fn new(ca: CaState, record: StorageRecord, api_key: Option<Vec<u8>>) -> (s: PkiService)
        ensures
            s.ca == ca,
            s.record == record,
            s.api_key == api_key,
            ca.wf() ==> s.wf(),
    {
        PkiService { ca, record, api_key }
    }

    /// Whether a call carrying the given credential is allowed.
    pub fn check_api_key(&self, credential: Option<&Vec<u8>>) -> (ok: bool)
        ensures
            ok == authorized(opt_bytes_view(self.api_key), opt_cred_view(credential)),
    {
        match &self.api_key {
            None => true,
            Some(k) => match credential {
                Some(c) => crate::storage::bytes_eq(c.as_slice(), k.as_slice()),
                None => false,
            },
        }
    }

    /// Returns the authority's certificate, PEM-encoded, to an allowed
    /// caller; the cached encoding cannot fail. Of a well-formed service
    /// the returned certificate is self-signed: its subject and its issuer
    /// are both the cached subject, before any issuance and after every
    /// one.
    pub fn get_ca(&self, credential: Option<&Vec<u8>>) -> (r: Result<Vec<u8>, FaultCode>)
        ensures
            match r {
                Ok(pem) => {
                    &&& authorized(opt_bytes_view(self.api_key), opt_cred_view(credential))
                    &&& pem@ == self.ca.cert_pem@
                    &&& self.wf() ==> crypto::cert_pem_subject(pem@) == Some(self.ca.subject_der@)
                        && crypto::cert_pem_issuer(pem@) == Some(self.ca.subject_der@)
                },
                Err(f) => {
                    &&& f == FaultCode::PermissionDenied
                    &&& !authorized(opt_bytes_view(self.api_key), opt_cred_view(credential))
                },
            },
    {
        if !self.check_api_key(credential) {
            return Err(FaultCode::PermissionDenied);
        }
        Ok(self.ca.cert_pem.clone())
    }

    /// Validates and signs a certificate signing request for an allowed
    /// caller: decodes the PEM, reads the request, allocates the next
    /// serial, and decides every field of the issued certificate. A
    /// malformed request is rejected before any state is touched.
    pub fn sign_csr(&mut self, credential: Option<&Vec<u8>>, csr_pem: &[u8]) -> (r: Result<
        Certificate,
        FaultCode,
    >)
        ensures
            final(self).ca == old(self).ca,
            final(self).api_key == old(self).api_key,
            final(self).record@.ca_key == old(self).record@.ca_key,
            final(self).record@.ca_cert == old(self).record@.ca_cert,
            old(self).wf() ==> final(self).wf(),
            match r {
                Ok(plan) => {
                    &&& authorized(opt_bytes_view(old(self).api_key), opt_cred_view(credential))
                    &&& old(self).wf() ==> Some(plan@.issuer_der) == crypto::cert_pem_subject(
                        old(self).ca.cert_pem@,
                    )
                    &&& pem::pem_decode_spec(x509::csr_label_spec(), csr_pem@) is Some
                    &&& crypto::csr_from_der(
                        pem::pem_decode_spec(x509::csr_label_spec(), csr_pem@)->Some_0,
                    ) is Some
                    &&& plan@ == x509::leaf_certificate(
                        crypto::csr_from_der(
                            pem::pem_decode_spec(x509::csr_label_spec(), csr_pem@)->Some_0,
                        )->Some_0,
                        old(self).ca.subject_der@,
                        plan@.serial,
                    )
                    &&& plan@.serial >= 1
                    &&& counter_of(old(self).record@) == Some(plan@.serial - 1)
                    &&& counter_of(final(self).record@) == Some(plan@.serial as int)
                },
                Err(f) => {
                    &&& (f == FaultCode::PermissionDenied ==> !authorized(
                        opt_bytes_view(old(self).api_key),
                        opt_cred_view(credential),
                    ) && final(self).record@ == old(self).record@)
                    &&& (f == FaultCode::InvalidArgument ==> authorized(
                        opt_bytes_view(old(self).api_key),
                        opt_cred_view(credential),
                    ) && final(self).record@ == old(self).record@ && (pem::pem_decode_spec(
                        x509::csr_label_spec(),
                        csr_pem@,
                    ) is None || crypto::csr_from_der(
                        pem::pem_decode_spec(x509::csr_label_spec(), csr_pem@)->Some_0,
                    ) is None))
                    &&& (f == FaultCode::Internal ==> authorized(
                        opt_bytes_view(old(self).api_key),
                        opt_cred_view(credential),
                    ) && final(self).record@ == old(self).record@ && (counter_of(old(self).record@) is None
                        || counter_of(old(self).record@) == Some(u32::MAX as int)))
                },
            },
            (authorized(opt_bytes_view(old(self).api_key), opt_cred_view(credential))
                && pem::pem_decode_spec(x509::csr_label_spec(), csr_pem@) is Some
                && crypto::csr_from_der(
                pem::pem_decode_spec(x509::csr_label_spec(), csr_pem@)->Some_0,
            ) is Some && counter_of(old(self).record@) is Some && counter_of(
                old(self).record@,
            )->Some_0 < u32::MAX) ==> r is Ok,
    {
        if !self.check_api_key(credential) {
            return Err(FaultCode::PermissionDenied);
        }
        let label = x509::csr_label();
        let der = match pem::decode(label.as_slice(), csr_pem) {
            Some(d) => d,
            None => {
                return Err(FaultCode::InvalidArgument);
            },
        };
        let csr = match crypto::parse_csr_der(der.as_slice()) {
            Ok(c) => c,
            Err(_) => {
                return Err(FaultCode::InvalidArgument);
            },
        };
        let serial = match allocate_next_serial(&mut self.record) {
            Ok(n) => n,
            Err(_) => {
                return Err(FaultCode::Internal);
            },
        };
        Ok(x509::sign_csr(&csr, &self.ca.subject_der, serial))
    }

    /// Wraps the rendered, signed certificate as PEM for the caller; a
    /// failed rendering surfaces as an internal fault.
    pub fn finish_sign_csr(&self, rendered_der: Option<Vec<u8>>) -> (r: Result<Vec<u8>, FaultCode>)
        ensures
            match rendered_der {
                Some(der) => r is Ok && r->Ok_0@ == pem::pem_encode_spec(
                    x509::cert_label_spec(),
                    der@,
                ),
                None => r == Err::<Vec<u8>, FaultCode>(FaultCode::Internal),
            },
    {
        match rendered_der {
            Some(der) => {
                let label = x509::cert_label();
                Ok(pem::encode(label.as_slice(), der.as_slice()))
            },
            None => Err(FaultCode::Internal),
        }
    }
}

} // verus!
