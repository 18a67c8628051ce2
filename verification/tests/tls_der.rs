use netlab_server::infrastructure::tls::{parse_cert_chain, parse_private_key, KeyFormat};

#[test]
fn cert_chain_keeps_each_certificate_in_order() {
    let a = rcgen::generate_simple_self_signed(vec!["a.test".to_string()]).expect("rcgen");
    let b = rcgen::generate_simple_self_signed(vec!["b.test".to_string()]).expect("rcgen");
    let pem = format!("{}{}", a.cert.pem(), b.cert.pem());
    let chain = parse_cert_chain("chain.pem", pem.as_bytes()).expect("chain");
    assert_eq!(chain, vec![a.cert.der().to_vec(), b.cert.der().to_vec()]);
}

#[test]
fn pkcs8_key_is_read_with_its_bytes() {
    let ck = rcgen::generate_simple_self_signed(vec!["localhost".to_string()]).expect("rcgen");
    let key = parse_private_key(&ck.key_pair.serialize_pem(), None).expect("key");
    assert_eq!(key.format, KeyFormat::Pkcs8);
    assert_eq!(key.der, ck.key_pair.serialize_der());
}
