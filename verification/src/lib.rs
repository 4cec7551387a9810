//! A minimal certificate authority: one self-signed root key and
//! certificate, bootstrapped once and persisted, leaf certificates issued
//! for externally supplied signing requests under a fixed extension policy,
//! and a strictly increasing serial number for every issuance. The
//! decisions are verified; openssl stands behind a small trusted boundary
//! in `crypto`, and the storage backends behind the record in `storage`.

pub mod base64;
pub mod ca;
pub mod crypto;
pub mod decimal;
pub mod laws;
pub mod pem;
pub mod service;
pub mod storage;
pub mod x509;

use vstd::prelude::*;

verus! {

/// Classifies every failure of the certificate authority core.
#[derive(Clone, Copy, Debug, PartialEq, Eq, Structural)]
pub enum PkiError {
    /// I/O or remote-API failure reading or writing persisted state.
    Storage,
    /// Malformed PEM or CSR input.
    Parse,
    /// Key generation, signing, or encoding failure.
    Crypto,
    /// Missing or mismatched credential while authorization is configured.
    Auth,
}

} // verus!
