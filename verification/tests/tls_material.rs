use netlab_server::infrastructure::tls::{
    parse_cert_chain, parse_private_key, tls_source, TlsMaterial, TlsSource,
};
use pkcs8::der::Decode;

fn pem_pair() -> (String, String) {
    let ck = rcgen::generate_simple_self_signed(vec!["localhost".to_string()]).expect("rcgen");
    (ck.cert.pem(), ck.key_pair.serialize_pem())
}

#[test]
fn self_signed_material_builds() {
    let mat = TlsMaterial::self_signed().expect("self-signed");
    let _ = &mat.acceptor;
}

#[test]
fn pem_round_trip_builds_material() {
    let (cert, key) = pem_pair();
    let certs = parse_cert_chain("cert.pem", cert.as_bytes()).expect("cert chain");
    assert_eq!(certs.len(), 1);
    let mat = TlsMaterial::with_chain(certs, &key, None).expect("load real PEM");
    let _ = &mat.acceptor;
}

#[test]
fn empty_cert_pem_errors_naming_the_file() {
    let err = parse_cert_chain("cert/fullchain.pem", b"").expect_err("must fail");
    assert_eq!(err, "no certificates found in cert/fullchain.pem");
    let (_, key) = pem_pair();
    let err = parse_cert_chain("k.pem", key.as_bytes()).expect_err("a key is no certificate");
    assert_eq!(err, "no certificates found in k.pem");
}

#[test]
fn malformed_cert_pem_errors_with_prefix() {
    let bad = b"-----BEGIN CERTIFICATE-----\n!!!!\n-----END CERTIFICATE-----\n";
    let err = parse_cert_chain("x.pem", bad).expect_err("must fail");
    assert!(err.starts_with("parsing cert PEM x.pem: "), "got {err}");
}

#[test]
fn private_key_errors() {
    let (cert, key) = pem_pair();
    let err = parse_private_key(&key, Some("secret")).err().expect("not an encrypted key");
    assert!(err.starts_with("decrypting private key: "), "got {err}");
    assert_eq!(
        parse_private_key(&cert, None).err().as_deref(),
        Some("no PKCS#8 private key found")
    );
    assert!(parse_private_key(&key, None).is_ok());
}

fn encrypted_pem(key_pem: &str, password: &str) -> String {
    let (_, der) = pkcs8::SecretDocument::from_pem(key_pem).expect("pem");
    let info = pkcs8::PrivateKeyInfo::from_der(der.as_bytes()).expect("pkcs8");
    let params =
        pkcs8::pkcs5::pbes2::Parameters::pbkdf2_sha256_aes256cbc(2048, &[7u8; 16], &[9u8; 16])
            .expect("params");
    let enc = info.encrypt_with_params(params, password).expect("encrypt");
    enc.to_pem("ENCRYPTED PRIVATE KEY", pkcs8::LineEnding::LF).expect("to pem").to_string()
}

#[test]
fn encrypted_key_with_password_builds_material() {
    let (cert, key) = pem_pair();
    let enc = encrypted_pem(&key, "hunter2");
    assert!(parse_private_key(&enc, Some("hunter2")).is_ok());
    let err = parse_private_key(&enc, Some("wrong")).err().expect("wrong password");
    assert!(err.starts_with("decrypting private key: "), "got {err}");
    let certs = parse_cert_chain("c.pem", cert.as_bytes()).unwrap();
    let mat = TlsMaterial::with_chain(certs, &enc, Some("hunter2")).expect("encrypted key");
    let _ = &mat.acceptor;
}

#[test]
fn mismatched_key_is_refused_by_rustls() {
    let (cert, _) = pem_pair();
    let (_, other_key) = pem_pair();
    let certs = parse_cert_chain("c.pem", cert.as_bytes()).unwrap();
    match TlsMaterial::with_chain(certs, &other_key, None) {
        Err(e) => assert!(e.starts_with("building ServerConfig: "), "got {e}"),
        Ok(_) => panic!("a key that does not match the certificate must be refused"),
    }
}

#[test]
fn tls_source_needs_both_paths() {
    assert_eq!(tls_source(Some("c"), Some("k")), TlsSource::PemFiles);
    assert_eq!(tls_source(Some("c"), None), TlsSource::SelfSigned);
    assert_eq!(tls_source(None, Some("k")), TlsSource::SelfSigned);
    assert_eq!(tls_source(None, None), TlsSource::SelfSigned);
}
