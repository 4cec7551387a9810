use k8s_pki::storage::{
    allocate_next_serial, bytes_eq, create_store, resolve_namespace, KubeConfigInfo, KubeContext,
    StorageRecord, StoreBackend,
};

#[test]
fn fresh_record_allocates_from_one() {
    let mut rec = StorageRecord::new();
    assert_eq!(allocate_next_serial(&mut rec), Ok(1));
    assert_eq!(allocate_next_serial(&mut rec), Ok(2));
    assert_eq!(allocate_next_serial(&mut rec), Ok(3));
    assert_eq!(rec.serial, Some(b"3".to_vec()));
}

#[test]
fn serials_are_distinct_and_increasing() {
    let mut rec = StorageRecord::new();
    let mut seen = Vec::new();
    for _ in 0..25 {
        let n = allocate_next_serial(&mut rec).unwrap();
        assert!(!seen.contains(&n));
        if let Some(last) = seen.last() {
            assert!(n > *last);
        }
        seen.push(n);
    }
    let expected: Vec<u32> = (1..=25).collect();
    assert_eq!(seen, expected);
}

#[test]
fn absent_counter_field_reads_as_zero() {
    let mut rec = StorageRecord { ca_key: None, ca_cert: None, serial: None };
    assert_eq!(allocate_next_serial(&mut rec), Ok(1));
}

#[test]
fn padded_counter_field_is_trimmed() {
    let mut rec = StorageRecord { ca_key: None, ca_cert: None, serial: Some(b" 41\n".to_vec()) };
    assert_eq!(allocate_next_serial(&mut rec), Ok(42));
    assert_eq!(rec.serial, Some(b"42".to_vec()));
}

#[test]
fn unreadable_counter_is_a_storage_error() {
    let mut rec =
        StorageRecord { ca_key: None, ca_cert: None, serial: Some(b"not-a-number".to_vec()) };
    assert!(allocate_next_serial(&mut rec).is_err());
    assert_eq!(rec.serial, Some(b"not-a-number".to_vec()));
}

#[test]
fn exhausted_counter_is_a_storage_error() {
    let mut rec =
        StorageRecord { ca_key: None, ca_cert: None, serial: Some(b"4294967295".to_vec()) };
    assert!(allocate_next_serial(&mut rec).is_err());
    assert_eq!(rec.serial, Some(b"4294967295".to_vec()));
}

#[test]
fn create_store_selects_the_backend() {
    let s = create_store(true, b"pki-secret".to_vec());
    assert_eq!(s.backend, StoreBackend::Local);
    assert_eq!(s.secret_name, b"pki-secret".to_vec());
    let s = create_store(false, b"pki-secret".to_vec());
    assert_eq!(s.backend, StoreBackend::KubernetesSecret);
}

fn config_with(current: Option<&str>, contexts: Vec<(&str, Option<&str>)>) -> KubeConfigInfo {
    KubeConfigInfo {
        current_context: current.map(|s| s.as_bytes().to_vec()),
        contexts: contexts
            .into_iter()
            .map(|(name, ns)| KubeContext {
                name: name.as_bytes().to_vec(),
                namespace: ns.map(|s| s.as_bytes().to_vec()),
            })
            .collect(),
    }
}

#[test]
fn namespace_prefers_the_config_file() {
    let cfg = config_with(Some("prod"), vec![("dev", Some("dev-ns")), ("prod", Some("prod-ns"))]);
    let ns = resolve_namespace(Some(&cfg), Some(b"env-ns".to_vec()), Some(b"file-ns".to_vec()));
    assert_eq!(ns, b"prod-ns".to_vec());
}

#[test]
fn namespace_falls_back_to_environment() {
    let cfg = config_with(Some("prod"), vec![("prod", Some(""))]);
    let ns = resolve_namespace(Some(&cfg), Some(b"env-ns".to_vec()), Some(b"file-ns".to_vec()));
    assert_eq!(ns, b"env-ns".to_vec());
    let ns = resolve_namespace(None, Some(b"env-ns".to_vec()), None);
    assert_eq!(ns, b"env-ns".to_vec());
}

#[test]
fn namespace_falls_back_to_the_injected_file() {
    let cfg = config_with(None, vec![("prod", Some("prod-ns"))]);
    let ns = resolve_namespace(Some(&cfg), None, Some(b"pod-ns\n".to_vec()));
    assert_eq!(ns, b"pod-ns".to_vec());
}

#[test]
fn namespace_defaults_when_nothing_is_configured() {
    assert_eq!(resolve_namespace(None, None, None), b"default".to_vec());
}

#[test]
fn bytes_eq_compares_contents() {
    assert!(bytes_eq(b"abc", b"abc"));
    assert!(!bytes_eq(b"abc", b"abd"));
    assert!(!bytes_eq(b"abc", b"ab"));
    assert!(bytes_eq(b"", b""));
}
