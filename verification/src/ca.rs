//! The authority's state manager: load-or-create bootstrap of the root key
//! and the root certificate over the storage record, and the cached state
//! every later call reads.

use vstd::prelude::*;

use crate::crypto;
use crate::pem;
use crate::storage::{allocate_next_serial, counter_of, RecordView, StorageRecord};
use crate::x509;
use crate::x509::Certificate;
use crate::PkiError;

verus! {

/// The authority's private key with its public half.
pub struct KeyMaterial {
    pub pem: Vec<u8>,
    pub public_der: Vec<u8>,
}

/// The authority's cached material: key, certificate, and the certificate's
/// subject name, all decoded once at startup and read-only afterwards.
pub struct CaState {
    pub key_pem: Vec<u8>,
    pub cert_pem: Vec<u8>,
    pub subject_der: Vec<u8>,
}

impl CaState {
    /// The cached subject is the subject of the cached certificate, and the
    /// certificate is self-signed: its issuer is that same subject. This is
    /// the root-state invariant; `bootstrap_finish` establishes it and
    /// nothing mutates the state afterwards.
    pub open spec fn wf(self) -> bool {
        &&& crypto::cert_pem_subject(self.cert_pem@) == Some(self.subject_der@)
        &&& crypto::cert_pem_issuer(self.cert_pem@) == Some(self.subject_der@)
    }

    /// The authority's certificate, as PEM.
    pub fn cert(&self) -> (c: &Vec<u8>)
        ensures
            c@ == self.cert_pem@,
    {
        &self.cert_pem
    }

    /// The authority's private key, as PKCS#8 PEM.
    pub fn key(&self) -> (k: &Vec<u8>)
        ensures
            k@ == self.key_pem@,
    {
        &self.key_pem
    }
}

/// The record's key field holds a loadable private key.
pub open spec fn key_loadable(r: RecordView) -> bool {
    r.ca_key is Some && crypto::public_key_of(r.ca_key->Some_0) is Some
}

/// The record's certificate field holds a loadable certificate.
pub open spec fn cert_loadable(r: RecordView) -> bool {
    r.ca_cert is Some && crypto::cert_pem_subject(r.ca_cert->Some_0) is Some
}

/// A record that a completed bootstrap leaves behind: both fields loadable.
pub open spec fn record_bootstrapped(r: RecordView) -> bool {
    key_loadable(r) && cert_loadable(r)
}

/// The authority's fixed identity.
pub open spec fn ca_name() -> Option<Seq<u8>> {
    crypto::name_der("PKI"@, "WirePact PKI CA"@)
}

/// The key half of bootstrap: keep a loadable stored key untouched, else
/// generate a fresh one and place it in the record, fully, before anything
/// else depends on it. On a record whose key field is already loadable this
/// is a pure load: the record comes back unchanged.
pub fn bootstrap_key(rec: &mut StorageRecord) -> (r: Result<KeyMaterial, PkiError>)
    ensures
        final(rec)@.ca_cert == old(rec)@.ca_cert,
        final(rec)@.serial == old(rec)@.serial,
        match r {
            Ok(km) => {
                &&& crypto::public_key_of(km.pem@) == Some(km.public_der@)
                &&& final(rec)@.ca_key == Some(km.pem@)
                &&& key_loadable(final(rec)@)
                &&& (key_loadable(old(rec)@) ==> final(rec)@ == old(rec)@ && old(rec)@.ca_key
                    == Some(km.pem@))
            },
            Err(e) => {
                &&& e == PkiError::Crypto
                &&& final(rec)@ == old(rec)@
                &&& !key_loadable(old(rec)@)
            },
        },
{
    let existing: Option<Vec<u8>> = match &rec.ca_key {
        Some(k) => Some(k.clone()),
        None => None,
    };
    if let Some(k) = existing {
        match crypto::public_key_der_of(k.as_slice()) {
            Ok(pk) => {
                return Ok(KeyMaterial { pem: k, public_der: pk });
            },
            Err(_) => {},
        }
    }
    let fresh = match crypto::create_new_key() {
        Ok(f) => f,
        Err(e) => {
            return Err(e);
        },
    };
    let pk = match crypto::public_key_der_of(fresh.as_slice()) {
        Ok(p) => p,
        Err(e) => {
            return Err(e);
        },
    };
    rec.ca_key = Some(fresh.clone());
    Ok(KeyMaterial { pem: fresh, public_der: pk })
}

/// What the certificate half of bootstrap decides.
pub enum BootstrapCert {
    /// The stored certificate is loadable: use it as it stands.
    Loaded(Vec<u8>),
    /// No loadable certificate is stored: issue this root certificate.
    Create(Certificate),
}

/// The certificate half of bootstrap: keep a loadable stored certificate,
/// else allocate a serial and decide every field of a fresh self-signed
/// root certificate for the caller to render and sign. On a record whose
/// certificate field is already loadable this is a pure load.
pub fn bootstrap_cert(rec: &mut StorageRecord, public_key_der: &Vec<u8>) -> (r: Result<
    BootstrapCert,
    PkiError,
>)
    ensures
        final(rec)@.ca_key == old(rec)@.ca_key,
        final(rec)@.ca_cert == old(rec)@.ca_cert,
        match r {
            Ok(bc) => match bc {
                BootstrapCert::Loaded(pem) => {
                    &&& cert_loadable(old(rec)@)
                    &&& old(rec)@.ca_cert == Some(pem@)
                    &&& final(rec)@ == old(rec)@
                },
                BootstrapCert::Create(plan) => {
                    &&& !cert_loadable(old(rec)@)
                    &&& ca_name() is Some
                    &&& plan@ == x509::root_certificate(
                        ca_name()->Some_0,
                        public_key_der@,
                        plan@.serial,
                    )
                    &&& plan@.serial >= 1
                    &&& counter_of(old(rec)@) == Some(plan@.serial - 1)
                    &&& counter_of(final(rec)@) == Some(plan@.serial as int)
                },
            },
            Err(e) => {
                &&& !cert_loadable(old(rec)@)
                &&& final(rec)@ == old(rec)@
                &&& (e == PkiError::Crypto ==> ca_name() is None)
                &&& (e == PkiError::Storage ==> ca_name() is Some && (counter_of(old(rec)@) is None
                    || counter_of(old(rec)@) == Some(u32::MAX as int)))
                &&& (e == PkiError::Crypto || e == PkiError::Storage)
            },
        },
        (!cert_loadable(old(rec)@) && ca_name() is Some && counter_of(old(rec)@) is Some
            && counter_of(old(rec)@)->Some_0 < u32::MAX) ==> r is Ok,
        cert_loadable(old(rec)@) ==> r is Ok,
{
    let existing: Option<Vec<u8>> = match &rec.ca_cert {
        Some(c) => Some(c.clone()),
        None => None,
    };
    if let Some(c) = existing {
        match crypto::parse_cert_subject(c.as_slice()) {
            Ok(_) => {
                return Ok(BootstrapCert::Loaded(c));
            },
            Err(_) => {},
        }
    }
    let subject = match crypto::build_name_der("PKI", "WirePact PKI CA") {
        Ok(s) => s,
        Err(e) => {
            return Err(e);
        },
    };
    let serial = match allocate_next_serial(rec) {
        Ok(n) => n,
        Err(e) => {
            return Err(e);
        },
    };
    let plan = x509::create_new_ca(serial, subject, public_key_der.clone());
    Ok(BootstrapCert::Create(plan))
}

/// Stores the rendered root certificate, PEM-encoded, in the record.
pub fn bootstrap_cert_commit(rec: &mut StorageRecord, der: &[u8]) -> (pem: Vec<u8>)
    ensures
        pem@ == pem::pem_encode_spec(x509::cert_label_spec(), der@),
        final(rec)@.ca_cert == Some(pem@),
        final(rec)@.ca_key == old(rec)@.ca_key,
        final(rec)@.serial == old(rec)@.serial,
{
    let label = x509::cert_label();
    let out = pem::encode(label.as_slice(), der);
    rec.ca_cert = Some(out.clone());
    out
}

/// Caches the bootstrapped material: the certificate's subject and issuer
/// names are decoded once, here, and never re-fetched. A certificate that
/// is not self-signed cannot be the root, so it is refused and startup
/// fails, which keeps the root-state invariant.
pub fn bootstrap_finish(key: KeyMaterial, cert_pem: Vec<u8>) -> (r: Result<CaState, PkiError>)
    ensures
        match r {
            Ok(ca) => {
                &&& ca.wf()
                &&& ca.key_pem@ == key.pem@
                &&& ca.cert_pem@ == cert_pem@
            },
            Err(e) => {
                &&& e == PkiError::Crypto
                &&& (crypto::cert_pem_subject(cert_pem@) is None || crypto::cert_pem_issuer(
                    cert_pem@,
                ) is None || crypto::cert_pem_issuer(cert_pem@) != crypto::cert_pem_subject(
                    cert_pem@,
                ))
            },
        },
{
    let subject = match crypto::parse_cert_subject(cert_pem.as_slice()) {
        Ok(s) => s,
        Err(_) => {
            return Err(PkiError::Crypto);
        },
    };
    let issuer = match crypto::parse_cert_issuer(cert_pem.as_slice()) {
        Ok(i) => i,
        Err(_) => {
            return Err(PkiError::Crypto);
        },
    };
    if !crate::storage::bytes_eq(issuer.as_slice(), subject.as_slice()) {
        return Err(PkiError::Crypto);
    }
    Ok(CaState { key_pem: key.pem, cert_pem, subject_der: subject })
}

} // verus!
