use k8s_pki::base64;
use k8s_pki::decimal;
use k8s_pki::pem;

#[test]
fn base64_exact_values() {
    assert_eq!(base64::encode(b"abc"), b"YWJj".to_vec());
    assert_eq!(base64::encode(b"a"), b"YQ==".to_vec());
    assert_eq!(base64::encode(b"ab"), b"YWI=".to_vec());
    assert_eq!(base64::encode(b""), Vec::<u8>::new());
    assert_eq!(base64::encode(&[0, 0, 0]), b"AAAA".to_vec());
    assert_eq!(base64::encode(&[255, 255, 255]), b"////".to_vec());
}

#[test]
fn base64_decode_exact_values() {
    assert_eq!(base64::decode(b"YWJj"), Some(b"abc".to_vec()));
    assert_eq!(base64::decode(b"YQ=="), Some(b"a".to_vec()));
    assert_eq!(base64::decode(b"YWI="), Some(b"ab".to_vec()));
    assert_eq!(base64::decode(b""), Some(Vec::new()));
}

#[test]
fn base64_decode_rejects_malformed() {
    assert_eq!(base64::decode(b"YWJ"), None);
    assert_eq!(base64::decode(b"Y!Jj"), None);
    assert_eq!(base64::decode(b"====" as &[u8]), None);
    assert_eq!(base64::decode(b"YQ=j"), None);
}

#[test]
fn base64_round_trip_various_lengths() {
    for len in 0..40usize {
        let data: Vec<u8> = (0..len).map(|i| (i * 37 + 11) as u8).collect();
        let enc = base64::encode(data.as_slice());
        assert_eq!(base64::decode(enc.as_slice()), Some(data));
    }
}

#[test]
fn pem_round_trip_short() {
    let der = vec![1u8, 2, 3, 4, 5];
    let p = pem::encode(b"CERTIFICATE", der.as_slice());
    assert_eq!(pem::decode(b"CERTIFICATE", p.as_slice()), Some(der));
}

#[test]
fn pem_round_trip_long_wraps_lines() {
    let der: Vec<u8> = (0..200).map(|i| (i % 251) as u8).collect();
    let p = pem::encode(b"CERTIFICATE REQUEST", der.as_slice());
    let text = String::from_utf8(p.clone()).unwrap();
    assert!(text.starts_with("-----BEGIN CERTIFICATE REQUEST-----\n"));
    assert!(text.ends_with("-----END CERTIFICATE REQUEST-----\n"));
    for line in text.lines() {
        assert!(line.len() <= 64);
    }
    assert_eq!(pem::decode(b"CERTIFICATE REQUEST", p.as_slice()), Some(der));
}

#[test]
fn pem_decode_tolerates_carriage_returns_and_padding() {
    let der: Vec<u8> = (0..100).map(|i| (i * 7) as u8).collect();
    let p = pem::encode(b"CERTIFICATE", der.as_slice());
    let text = String::from_utf8(p).unwrap();
    let crlf = text.replace('\n', "\r\n");
    assert_eq!(pem::decode(b"CERTIFICATE", crlf.as_bytes()), Some(der.clone()));
    let padded = format!("\n\t {}\r\n\n ", text);
    assert_eq!(pem::decode(b"CERTIFICATE", padded.as_bytes()), Some(der.clone()));
    let no_final_newline = text.trim_end();
    assert_eq!(
        pem::decode(b"CERTIFICATE", no_final_newline.as_bytes()),
        Some(der)
    );
}

#[test]
fn pem_decode_rejects_wrong_label() {
    let der = vec![9u8, 9, 9];
    let p = pem::encode(b"CERTIFICATE", der.as_slice());
    assert_eq!(pem::decode(b"CERTIFICATE REQUEST", p.as_slice()), None);
}

#[test]
fn pem_decode_rejects_garbage() {
    assert_eq!(pem::decode(b"CERTIFICATE", b""), None);
    assert_eq!(pem::decode(b"CERTIFICATE", b"hello"), None);
}

#[test]
fn decimal_parse_exact_values() {
    assert_eq!(decimal::parse_u32(b"0"), Some(0));
    assert_eq!(decimal::parse_u32(b"42"), Some(42));
    assert_eq!(decimal::parse_u32(b"007"), Some(7));
    assert_eq!(decimal::parse_u32(b"4294967295"), Some(u32::MAX));
    assert_eq!(decimal::parse_u32(b"4294967296"), None);
    assert_eq!(decimal::parse_u32(b""), None);
    assert_eq!(decimal::parse_u32(b"12a"), None);
    assert_eq!(decimal::parse_u32(b"-1"), None);
}

#[test]
fn decimal_format_exact_values() {
    assert_eq!(decimal::format_u32(0), b"0".to_vec());
    assert_eq!(decimal::format_u32(10), b"10".to_vec());
    assert_eq!(decimal::format_u32(4294967295), b"4294967295".to_vec());
}

#[test]
fn decimal_round_trip() {
    for n in [0u32, 1, 9, 10, 99, 100, 123456789, u32::MAX] {
        assert_eq!(decimal::parse_u32(decimal::format_u32(n).as_slice()), Some(n));
    }
}

#[test]
fn trim_strips_whitespace() {
    assert_eq!(decimal::trim(b"  7\n"), b"7".to_vec());
    assert_eq!(decimal::trim(b"\t 12 \r\n"), b"12".to_vec());
    assert_eq!(decimal::trim(b"12"), b"12".to_vec());
    assert_eq!(decimal::trim(b"  "), Vec::<u8>::new());
    assert_eq!(decimal::trim(b""), Vec::<u8>::new());
}
