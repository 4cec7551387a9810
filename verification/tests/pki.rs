use openssl::asn1::{Asn1Integer, Asn1Time};
use openssl::bn::BigNum;
use openssl::hash::MessageDigest;
use openssl::nid::Nid;
use openssl::pkey::PKey;
use openssl::x509::extension::{
    AuthorityKeyIdentifier, BasicConstraints, ExtendedKeyUsage, KeyUsage, SubjectKeyIdentifier,
};
use openssl::x509::{X509Name, X509Req, X509};

use k8s_pki::ca::{
    bootstrap_cert, bootstrap_cert_commit, bootstrap_finish, bootstrap_key, BootstrapCert, CaState,
};
use k8s_pki::service::{FaultCode, PkiService};
use k8s_pki::storage::StorageRecord;
use k8s_pki::x509::Certificate;

/// Renders a decided certificate into a signed openssl `X509`, exactly as
/// the surrounding program does before handing the DER back to the library.
fn render(plan: &Certificate, key_pem: &[u8], ca: Option<&X509>) -> X509 {
    let key = PKey::private_key_from_pem(key_pem).unwrap();
    let mut b = X509::builder().unwrap();
    b.set_version(plan.version).unwrap();
    let subject = X509Name::from_der(&plan.subject_der).unwrap();
    b.set_subject_name(&subject).unwrap();
    let issuer = X509Name::from_der(&plan.issuer_der).unwrap();
    b.set_issuer_name(&issuer).unwrap();
    let pubkey = PKey::public_key_from_der(&plan.public_key_der).unwrap();
    b.set_pubkey(&pubkey).unwrap();
    let nb = Asn1Time::days_from_now(plan.not_before_days).unwrap();
    let na = Asn1Time::days_from_now(plan.not_after_days).unwrap();
    b.set_not_before(&nb).unwrap();
    b.set_not_after(&na).unwrap();
    let serial = Asn1Integer::from_bn(&BigNum::from_u32(plan.serial).unwrap()).unwrap();
    b.set_serial_number(&serial).unwrap();

    let mut bc = BasicConstraints::new();
    if plan.basic_constraints.ca {
        bc.ca();
    }
    if plan.basic_constraints.critical {
        bc.critical();
    }
    b.append_extension(bc.build().unwrap()).unwrap();

    let mut ku = KeyUsage::new();
    if plan.key_usage.critical {
        ku.critical();
    }
    if plan.key_usage.digital_signature {
        ku.digital_signature();
    }
    if plan.key_usage.non_repudiation {
        ku.non_repudiation();
    }
    if plan.key_usage.key_encipherment {
        ku.key_encipherment();
    }
    if plan.key_usage.key_cert_sign {
        ku.key_cert_sign();
    }
    if plan.key_usage.crl_sign {
        ku.crl_sign();
    }
    b.append_extension(ku.build().unwrap()).unwrap();

    if let Some(e) = &plan.extended_key_usage {
        let mut eku = ExtendedKeyUsage::new();
        if e.client_auth {
            eku.client_auth();
        }
        if e.server_auth {
            eku.server_auth();
        }
        b.append_extension(eku.build().unwrap()).unwrap();
    }
    if plan.subject_key_identifier {
        let ext = SubjectKeyIdentifier::new().build(&b.x509v3_context(ca.map(|v| &**v), None)).unwrap();
        b.append_extension(ext).unwrap();
    }
    if plan.authority_key_identifier {
        let ext = AuthorityKeyIdentifier::new()
            .keyid(false)
            .issuer(false)
            .build(&b.x509v3_context(ca.map(|v| &**v), None))
            .unwrap();
        b.append_extension(ext).unwrap();
    }
    b.sign(&key, MessageDigest::sha256()).unwrap();
    b.build()
}

fn make_csr(cn: &str) -> Vec<u8> {
    let key = PKey::from_rsa(openssl::rsa::Rsa::generate(2048).unwrap()).unwrap();
    let mut name = X509Name::builder().unwrap();
    name.append_entry_by_nid(Nid::COMMONNAME, cn).unwrap();
    let name = name.build();
    let mut req = X509Req::builder().unwrap();
    req.set_subject_name(&name).unwrap();
    req.set_pubkey(&key).unwrap();
    req.sign(&key, MessageDigest::sha256()).unwrap();
    req.build().to_pem().unwrap()
}

/// Runs the whole bootstrap against an in-memory record, rendering the root
/// certificate with openssl, and returns the cached state with the record.
fn bootstrap(record: &mut StorageRecord) -> CaState {
    let km = bootstrap_key(record).unwrap();
    let cert_pem = match bootstrap_cert(record, &km.public_der).unwrap() {
        BootstrapCert::Loaded(pem) => pem,
        BootstrapCert::Create(plan) => {
            let x = render(&plan, &km.pem, None);
            bootstrap_cert_commit(record, &x.to_der().unwrap())
        },
    };
    bootstrap_finish(km, cert_pem).unwrap()
}

#[test]
fn bootstrap_creates_a_self_signed_ca() {
    let mut record = StorageRecord::new();
    let km = bootstrap_key(&mut record).unwrap();
    let plan = match bootstrap_cert(&mut record, &km.public_der).unwrap() {
        BootstrapCert::Create(plan) => plan,
        BootstrapCert::Loaded(_) => panic!("a fresh record holds no certificate"),
    };
    assert_eq!(plan.serial, 1);
    assert!(plan.basic_constraints.ca);
    assert!(plan.basic_constraints.critical);
    assert_eq!(plan.subject_der, plan.issuer_der);
    assert_eq!(plan.version, 2);
    assert!(plan.key_usage.critical && plan.key_usage.key_cert_sign && plan.key_usage.crl_sign);
    assert!(plan.extended_key_usage.is_none());
    assert_eq!(plan.not_before_days, 0);
    assert_eq!(plan.not_after_days, 1825);
    assert_eq!(plan.public_key_der, km.public_der);

    let x = render(&plan, &km.pem, None);
    let cert_pem = bootstrap_cert_commit(&mut record, &x.to_der().unwrap());
    let ca = bootstrap_finish(km, cert_pem.clone()).unwrap();

    let parsed = X509::from_pem(&cert_pem).unwrap();
    assert_eq!(
        parsed.subject_name().to_der().unwrap(),
        parsed.issuer_name().to_der().unwrap()
    );
    let cn = parsed.subject_name().entries_by_nid(Nid::COMMONNAME).next().unwrap();
    assert_eq!(cn.data().as_slice(), b"PKI");
    let org = parsed
        .subject_name()
        .entries_by_nid(Nid::ORGANIZATIONNAME)
        .next()
        .unwrap();
    assert_eq!(org.data().as_slice(), b"WirePact PKI CA");
    assert_eq!(ca.subject_der, parsed.subject_name().to_der().unwrap());
}

#[test]
fn bootstrap_is_idempotent() {
    let mut record = StorageRecord::new();
    let km = bootstrap_key(&mut record).unwrap();
    let record_after_key = record.clone();
    let km2 = bootstrap_key(&mut record).unwrap();
    assert_eq!(km.pem, km2.pem);
    assert_eq!(km.public_der, km2.public_der);
    assert_eq!(record, record_after_key);

    let cert_pem = match bootstrap_cert(&mut record, &km.public_der).unwrap() {
        BootstrapCert::Loaded(_) => panic!("a fresh record holds no certificate"),
        BootstrapCert::Create(plan) => {
            let x = render(&plan, &km.pem, None);
            bootstrap_cert_commit(&mut record, &x.to_der().unwrap())
        },
    };
    let record_after_cert = record.clone();
    match bootstrap_cert(&mut record, &km.public_der).unwrap() {
        BootstrapCert::Loaded(pem) => assert_eq!(pem, cert_pem),
        BootstrapCert::Create(_) => panic!("the stored certificate must be reused"),
    }
    assert_eq!(record, record_after_cert);
}

#[test]
fn get_ca_returns_the_root_certificate() {
    let mut record = StorageRecord::new();
    let ca = bootstrap(&mut record);
    let cert_pem = ca.cert_pem.clone();
    let service = PkiService::new(ca, record, None);
    let pem = service.get_ca(None).unwrap();
    assert_eq!(pem, cert_pem);
    let parsed = X509::from_pem(&pem).unwrap();
    assert_eq!(
        parsed.subject_name().to_der().unwrap(),
        parsed.issuer_name().to_der().unwrap()
    );
}

#[test]
fn issuing_copies_the_request_and_allocates_the_next_serial() {
    let mut record = StorageRecord::new();
    let ca = bootstrap(&mut record);
    let ca_parsed = X509::from_pem(&ca.cert_pem).unwrap();
    let mut service = PkiService::new(ca, record, None);

    let csr_pem = make_csr("demo");
    let plan = service.sign_csr(None, &csr_pem).unwrap();
    // the root certificate took serial 1; the first leaf takes 2
    assert_eq!(plan.serial, 2);
    assert!(!plan.basic_constraints.ca);
    assert!(!plan.basic_constraints.critical);
    assert_eq!(plan.issuer_der, service.ca.subject_der);
    assert_eq!(plan.not_before_days, 0);
    assert_eq!(plan.not_after_days, 1825);
    let eku = plan.extended_key_usage.as_ref().unwrap();
    assert!(eku.client_auth && eku.server_auth);
    assert!(plan.key_usage.critical && plan.key_usage.digital_signature);
    assert!(plan.key_usage.non_repudiation && plan.key_usage.key_encipherment);
    assert!(!plan.key_usage.key_cert_sign);

    let req = X509Req::from_pem(&csr_pem).unwrap();
    assert_eq!(plan.subject_der, req.subject_name().to_der().unwrap());
    assert_eq!(
        plan.public_key_der,
        req.public_key().unwrap().public_key_to_der().unwrap()
    );
    assert_eq!(plan.version, req.version());

    let leaf = render(&plan, &service.ca.key_pem, Some(&ca_parsed));
    let out = service.finish_sign_csr(Some(leaf.to_der().unwrap())).unwrap();
    let leaf_parsed = X509::from_pem(&out).unwrap();
    assert_eq!(
        leaf_parsed.serial_number().to_bn().unwrap(),
        BigNum::from_u32(2).unwrap()
    );
    assert_eq!(
        leaf_parsed.issuer_name().to_der().unwrap(),
        ca_parsed.subject_name().to_der().unwrap()
    );
    let ca_pubkey = ca_parsed.public_key().unwrap();
    assert!(leaf_parsed.verify(&ca_pubkey).unwrap());

    // a second issuance never repeats a serial
    let plan2 = service.sign_csr(None, &make_csr("demo-2")).unwrap();
    assert_eq!(plan2.serial, 3);
}

#[test]
fn a_preloaded_authority_issues_serial_one() {
    let mut record = StorageRecord::new();
    let ca = bootstrap(&mut record);
    // the authority's material was provisioned out of band: the counter is
    // still at zero, so the first issuance hands out serial 1
    record.serial = Some(b"0".to_vec());
    let mut service = PkiService::new(ca, record, None);
    let plan = service.sign_csr(None, &make_csr("demo")).unwrap();
    assert_eq!(plan.serial, 1);
}

#[test]
fn shared_secret_guards_both_calls() {
    let mut record = StorageRecord::new();
    let ca = bootstrap(&mut record);
    let mut service = PkiService::new(ca, record, Some(b"my-secret-key".to_vec()));

    assert_eq!(service.get_ca(None), Err(FaultCode::PermissionDenied));
    assert_eq!(
        service.get_ca(Some(&b"wrong".to_vec())),
        Err(FaultCode::PermissionDenied)
    );
    assert!(service.get_ca(Some(&b"my-secret-key".to_vec())).is_ok());

    let csr_pem = make_csr("demo");
    assert_eq!(
        service.sign_csr(None, &csr_pem),
        Err(FaultCode::PermissionDenied)
    );
    assert!(service.sign_csr(Some(&b"my-secret-key".to_vec()), &csr_pem).is_ok());
}

#[test]
fn malformed_requests_are_rejected_without_touching_state() {
    let mut record = StorageRecord::new();
    let ca = bootstrap(&mut record);
    let mut service = PkiService::new(ca, record, None);
    let counter_before = service.record.serial.clone();

    assert_eq!(service.sign_csr(None, b""), Err(FaultCode::InvalidArgument));
    assert_eq!(
        service.sign_csr(None, b"not a pem at all"),
        Err(FaultCode::InvalidArgument)
    );
    // well-formed PEM framing around bytes that are no request
    let fake = k8s_pki::pem::encode(b"CERTIFICATE REQUEST", b"junk");
    assert_eq!(service.sign_csr(None, &fake), Err(FaultCode::InvalidArgument));

    assert_eq!(service.record.serial, counter_before);
    assert_eq!(service.record.ca_key, Some(service.ca.key_pem.clone()));
}

#[test]
fn a_certificate_that_is_not_self_signed_is_refused_as_root() {
    let mut record = StorageRecord::new();
    let ca = bootstrap(&mut record);
    let ca_parsed = X509::from_pem(&ca.cert_pem).unwrap();
    let mut service = PkiService::new(ca, record, None);
    let plan = service.sign_csr(None, &make_csr("demo")).unwrap();
    let leaf = render(&plan, &service.ca.key_pem, Some(&ca_parsed));
    let leaf_pem = service.finish_sign_csr(Some(leaf.to_der().unwrap())).unwrap();

    // the leaf names the authority, not itself, as its issuer, so it can
    // never serve as the cached root
    let mut other_record = StorageRecord::new();
    let other_key = bootstrap_key(&mut other_record).unwrap();
    assert!(bootstrap_finish(other_key, leaf_pem).is_err());
}

#[test]
fn rendering_failure_is_an_internal_fault() {
    let mut record = StorageRecord::new();
    let ca = bootstrap(&mut record);
    let service = PkiService::new(ca, record, None);
    assert_eq!(service.finish_sign_csr(None), Err(FaultCode::Internal));
}
