//! The library's laws across functions: what runs of the serial allocator
//! yield, and what that means for the certificates issued with them.

use vstd::prelude::*;

use crate::decimal;
use crate::storage::{alloc_spec, counter_of, lemma_counter_nonneg, RecordView};
use crate::x509;
use crate::x509::CsrView;

verus! {

/// The outcome of the `i`-th allocation (counted from zero) in a run of
/// successive allocations starting from record `r`.
pub open spec fn alloc_chain(r: RecordView, i: nat) -> Option<(u32, RecordView)>
    decreases i,
{
    if i == 0 {
        alloc_spec(r)
    } else {
        match alloc_chain(r, (i - 1) as nat) {
            None => None,
            Some((n, r2)) => alloc_spec(r2),
        }
    }
}

/// A record whose counter field holds the canonical digits of `n` reads as
/// counter `n`.
proof fn lemma_counter_of_digits(r: RecordView, n: u32)
    requires
        r.serial == Some(decimal::dec_digits(n as nat)),
    ensures
        counter_of(r) == Some(n as int),
{
    decimal::lemma_dec_digits(n as nat);
    let d = decimal::dec_digits(n as nat);
    assert(forall|j: int| 0 <= j < d.len() ==> !decimal::is_space(d[j]));
    decimal::lemma_trim_clean(d);
}

/// In a run from a counter reading `c` in which `i + 1` allocations fit,
/// the `i`-th allocation succeeds and hands out exactly `c + i + 1`, and
/// the record then reads `c + i + 1`.
pub proof fn lemma_alloc_chain_values(r: RecordView, c: int, i: nat)
    requires
        counter_of(r) == Some(c),
        c + i + 1 <= u32::MAX,
    ensures
        alloc_chain(r, i) is Some,
        alloc_chain(r, i)->Some_0.0 == c + i + 1,
        counter_of(alloc_chain(r, i)->Some_0.1) == Some(c + i + 1),
    decreases i,
{
    lemma_counter_nonneg(r);
    if i == 0 {
        let (n, r2) = alloc_spec(r)->Some_0;
        lemma_counter_of_digits(r2, n);
    } else {
        lemma_alloc_chain_values(r, c, (i - 1) as nat);
        let r1 = alloc_chain(r, (i - 1) as nat)->Some_0.1;
        let (n, r2) = alloc_spec(r1)->Some_0;
        lemma_counter_of_digits(r2, n);
    }
}

/// Serial numbers are strictly increasing along any run of successful
/// allocations: a run of `j + 1` allocations from a counter reading `c`
/// yields exactly `c + 1, ..., c + j + 1`, so no serial ever repeats and
/// none decreases.
pub proof fn lemma_serials_strictly_increasing(r: RecordView, c: int, i: nat, j: nat)
    requires
        counter_of(r) == Some(c),
        i < j,
        c + j + 1 <= u32::MAX,
    ensures
        alloc_chain(r, i) is Some,
        alloc_chain(r, j) is Some,
        alloc_chain(r, i)->Some_0.0 == c + i + 1,
        alloc_chain(r, j)->Some_0.0 == c + j + 1,
        alloc_chain(r, i)->Some_0.0 < alloc_chain(r, j)->Some_0.0,
{
    lemma_alloc_chain_values(r, c, i);
    lemma_alloc_chain_values(r, c, j);
}

/// Certificates issued with the serials of one run share the authority's
/// subject as their issuer, copy their request's public key, and carry
/// distinct serials.
pub proof fn lemma_issued_certificates_unique(
    r: RecordView,
    c: int,
    ca_subject: Seq<u8>,
    csr1: CsrView,
    csr2: CsrView,
    i: nat,
    j: nat,
)
    requires
        counter_of(r) == Some(c),
        i < j,
        c + j + 1 <= u32::MAX,
    ensures
        x509::leaf_certificate(csr1, ca_subject, alloc_chain(r, i)->Some_0.0).issuer_der
            == ca_subject,
        x509::leaf_certificate(csr1, ca_subject, alloc_chain(r, i)->Some_0.0).public_key_der
            == csr1.public_key_der,
        x509::leaf_certificate(csr1, ca_subject, alloc_chain(r, i)->Some_0.0).serial
            != x509::leaf_certificate(csr2, ca_subject, alloc_chain(r, j)->Some_0.0).serial,
{
    lemma_serials_strictly_increasing(r, c, i, j);
}

/// A fresh root certificate names itself as its issuer.
pub proof fn lemma_root_self_signed(subject: Seq<u8>, public_key: Seq<u8>, serial: u32)
    ensures
        x509::self_signed(x509::root_certificate(subject, public_key, serial)),
{
}

} // verus!
