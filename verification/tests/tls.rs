//! Keys and certificates out of PEM files.

use pgferry::tls::{
    certificates, choose_key, choose_roots, private_key, roots, KeyError, PrivateKey,
};

fn section(label: &str, body: &str) -> String {
    format!("-----BEGIN {label}-----\n{body}\n-----END {label}-----\n")
}

const PKCS8: &str = "PRIVATE KEY";
const RSA: &str = "RSA PRIVATE KEY";
const CERTIFICATE: &str = "CERTIFICATE";

/// A certificate with nothing in it but its outline.
const OUTLINE: [u8; 23] =
    [48, 21, 48, 13, 2, 1, 1, 48, 0, 48, 0, 48, 0, 48, 0, 48, 0, 48, 0, 3, 2, 0, 0];
const OUTLINE_BASE64: &str = "MBUwDQIBATAAMAAwADAAMAAwAAMCAAA=";

#[test]
fn keys_are_chosen_in_order() {
    let keys = |k: &[u8]| -> Result<Vec<Vec<u8>>, String> { Ok(k.iter().map(|b| vec![*b]).collect()) };
    let bad = |why: &str| -> Result<Vec<Vec<u8>>, String> { Err(why.to_owned()) };
    assert_eq!(choose_key(keys(&[1, 2]), keys(&[3])), Ok(PrivateKey::Pkcs8(vec![1])));
    assert_eq!(choose_key(keys(&[1]), bad("x")), Ok(PrivateKey::Pkcs8(vec![1])));
    assert_eq!(choose_key(keys(&[]), keys(&[3, 4])), Ok(PrivateKey::Rsa(vec![4])));
    assert_eq!(choose_key(bad("a"), keys(&[3])), Err(KeyError::Pkcs8("a".to_owned())));
    assert_eq!(choose_key(keys(&[]), bad("b")), Err(KeyError::Rsa("b".to_owned())));
    assert_eq!(choose_key(keys(&[]), keys(&[])), Err(KeyError::Missing));
}

#[test]
fn private_keys_are_read() {
    let both = section(RSA, "BwgJ") + &section(PKCS8, "AQID") + &section(PKCS8, "BAUG");
    assert_eq!(private_key(both.as_bytes()), Ok(PrivateKey::Pkcs8(vec![1, 2, 3])));
    let rsa = section(RSA, "AQID") + &section(CERTIFICATE, "AAAA") + &section(RSA, "BwgJ");
    assert_eq!(private_key(rsa.as_bytes()), Ok(PrivateKey::Rsa(vec![7, 8, 9])));
    assert_eq!(private_key(b"nothing here"), Err(KeyError::Missing));
    assert_eq!(private_key(section(CERTIFICATE, "AAAA").as_bytes()), Err(KeyError::Missing));
}

#[test]
fn key_errors_read_well() {
    let open = format!("-----BEGIN {PKCS8}-----\nAQID\n");
    match private_key(open.as_bytes()) {
        Err(e) => assert_eq!(e.message(), "pkcs8 key: section end \"PRIVATE KEY\" missing"),
        Ok(_) => panic!("read"),
    }
    assert_eq!(KeyError::Rsa("why".to_owned()).message(), "rsa key: why");
    assert_eq!(KeyError::Missing.message(), "no private key found in key file");
}

#[test]
fn certificates_are_read_in_order() {
    let pem = section(CERTIFICATE, "AQID") + &section(PKCS8, "AAAA") + &section(CERTIFICATE, "BAUG");
    assert_eq!(certificates(pem.as_bytes()), Ok(vec![vec![1, 2, 3], vec![4, 5, 6]]));
    assert_eq!(certificates(b""), Ok(vec![]));
    assert!(certificates(section(CERTIFICATE, "!").as_bytes()).is_err());
}

#[test]
fn roots_are_all_or_none() {
    let good = section(CERTIFICATE, OUTLINE_BASE64);
    assert_eq!(roots(Some(good.as_bytes())), Some(vec![OUTLINE.to_vec()]));
    let mixed = good.clone() + &section(CERTIFICATE, "AQID");
    assert_eq!(roots(Some(mixed.as_bytes())), None);
    let broken = good + "-----BEGIN CERTIFICATE-----\n";
    assert_eq!(roots(Some(broken.as_bytes())), None);
    assert_eq!(roots(None), None);
    assert_eq!(roots(Some(b"")), Some(vec![]));
    assert_eq!(choose_roots(Ok(vec![vec![1]]), true), Some(vec![vec![1]]));
    assert_eq!(choose_roots(Ok(vec![vec![1]]), false), None);
    assert_eq!(choose_roots(Err("x".to_owned()), true), None);
}
