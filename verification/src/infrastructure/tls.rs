//! The TLS server configuration of SSL-TCP ports: a PEM certificate chain
//! and PEM private key, or a freshly generated self-signed certificate.
//! Reading the PEM files is left to the caller; this module reads the DER
//! certificates and key out of their text and builds the `rustls`
//! configuration from them.
use vstd::prelude::*;
use vstd::string::StringExecFns;
use crate::domain::text::starts_with;
use rustls::ServerConfig as RustlsConfig;

verus! {

#[verifier::external_type_specification]
#[verifier::external_body]
pub struct ExTlsAcceptor(tokio_rustls::TlsAcceptor);

/// The encoding of a DER private key.
#[derive(Debug, Clone, Copy, PartialEq, Eq, Structural)]
pub enum KeyFormat {
    /// An RSA key (PKCS#1).
    Pkcs1,
    /// A PKCS#8 key.
    Pkcs8,
}

/// A private key: its DER bytes and their encoding.
#[derive(Debug)]
pub struct KeyDer {
    pub format: KeyFormat,
    pub der: Vec<u8>,
}

impl View for KeyDer {
    type V = (KeyFormat, Seq<u8>);

    open spec fn view(&self) -> (KeyFormat, Seq<u8>) {
        (self.format, self.der@)
    }
}

/// The bytes of each DER certificate of a chain.
pub open spec fn chain_view(certs: Seq<Vec<u8>>) -> Seq<Seq<u8>> {
    certs.map_values(|c: Vec<u8>| c@)
}

/// The DER bytes of the certificates `rustls_pemfile::certs` reads from a
/// PEM text, in order; `None` when reading a section fails.
pub uninterp spec fn pem_certificates(pem: Seq<u8>) -> Option<Seq<Seq<u8>>>;

/// The first item of `rustls_pemfile::pkcs8_private_keys` for a PEM text:
/// `None` when it holds no PKCS#8 key section, `Some(Some(der))` with the
/// key's DER bytes when the first one reads, `Some(None)` when reading it
/// fails.
pub uninterp spec fn pem_first_pkcs8_key(pem: Seq<char>) -> Option<Option<Seq<u8>>>;

/// The first item of `rustls_pemfile::rsa_private_keys` for a PEM text, as
/// [`pem_first_pkcs8_key`] gives it for PKCS#8 keys (the DER is PKCS#1).
pub uninterp spec fn pem_first_rsa_key(pem: Seq<char>) -> Option<Option<Seq<u8>>>;

/// The DER bytes of the PKCS#8 key that
/// `pkcs8::DecodePrivateKey::from_pkcs8_encrypted_pem` decrypts from a PEM
/// text (an `ENCRYPTED PRIVATE KEY` section) with a password; `None` when
/// it fails.
pub uninterp spec fn pem_decrypted(pem: Seq<char>, password: Seq<char>) -> Option<Seq<u8>>;

/// `rustls_pemfile::certs`, collected: the DER bytes of the certificates
/// of a PEM text, or the error text of the first section that fails to
/// read.
#[verifier::external_body]
fn pem_certs(pem: &[u8]) -> (r: Result<Vec<Vec<u8>>, String>)
    ensures
        match r {
            Ok(v) => pem_certificates(pem@) == Some(chain_view(v@)),
            Err(_) => pem_certificates(pem@) is None,
        },
{
    let mut reader: &[u8] = pem;
    rustls_pemfile::certs(&mut reader)
        .map(|c| c.map(|c| c.as_ref().to_vec()))
        .collect::<Result<Vec<_>, _>>()
        .map_err(|e| e.to_string())
}

/// The first item of `rustls_pemfile::pkcs8_private_keys`: the DER bytes of
/// the first PKCS#8 key of a PEM text, or the error text of reading it.
#[verifier::external_body]
fn pem_pkcs8_key(pem: &str) -> (r: Option<Result<Vec<u8>, String>>)
    ensures
        match r {
            None => pem_first_pkcs8_key(pem@) is None,
            Some(Ok(d)) => pem_first_pkcs8_key(pem@) == Some(Some(d@)),
            Some(Err(_)) => pem_first_pkcs8_key(pem@) == Some(None::<Seq<u8>>),
        },
{
    let mut reader: &[u8] = pem.as_bytes();
    let first = rustls_pemfile::pkcs8_private_keys(&mut reader).next();
    match first {
        None => None,
        Some(Ok(k)) => Some(Ok(k.secret_pkcs8_der().to_vec())),
        Some(Err(e)) => Some(Err(e.to_string())),
    }
}

/// The first item of `rustls_pemfile::rsa_private_keys`: the DER (PKCS#1)
/// bytes of the first RSA key of a PEM text, or the error text of reading
/// it.
#[verifier::external_body]
fn pem_rsa_key(pem: &str) -> (r: Option<Result<Vec<u8>, String>>)
    ensures
        match r {
            None => pem_first_rsa_key(pem@) is None,
            Some(Ok(d)) => pem_first_rsa_key(pem@) == Some(Some(d@)),
            Some(Err(_)) => pem_first_rsa_key(pem@) == Some(None::<Seq<u8>>),
        },
{
    let mut reader: &[u8] = pem.as_bytes();
    let first = rustls_pemfile::rsa_private_keys(&mut reader).next();
    match first {
        None => None,
        Some(Ok(k)) => Some(Ok(k.secret_pkcs1_der().to_vec())),
        Some(Err(e)) => Some(Err(e.to_string())),
    }
}

/// `pkcs8::DecodePrivateKey::from_pkcs8_encrypted_pem` into a
/// `SecretDocument`: the DER bytes of the PKCS#8 key an `ENCRYPTED PRIVATE
/// KEY` PEM text holds, decrypted with the password; or the error's text.
#[verifier::external_body]
fn decrypt_pkcs8_pem(pem: &str, password: &str) -> (r: Result<Vec<u8>, String>)
    ensures
        match r {
            Ok(d) => pem_decrypted(pem@, password@) == Some(d@),
            Err(_) => pem_decrypted(pem@, password@) is None,
        },
{
    match <pkcs8::SecretDocument as pkcs8::DecodePrivateKey>::from_pkcs8_encrypted_pem(pem, password) {
        Ok(doc) => Ok(doc.as_bytes().to_vec()),
        Err(e) => Err(e.to_string()),
    }
}

/// A `rustls` server configuration builder that has its protocol versions
/// and waits for its client authentication policy. (`rustls::ConfigBuilder`
/// cannot be declared to the verifier: its side parameter is bound by a
/// `rustls` trait.)
#[verifier::external_body]
struct VersionedBuilder {
    inner: rustls::ConfigBuilder<RustlsConfig, rustls::WantsVerifier>,
}

/// A `rustls` server configuration builder that waits for its certificate.
#[verifier::external_body]
struct CertBuilder {
    inner: rustls::ConfigBuilder<RustlsConfig, rustls::server::WantsServerCert>,
}

/// `rustls::ServerConfig::builder`: a server configuration builder over
/// the process's default crypto provider, with the safe default protocol
/// versions. (With no provider installed, it installs the one the crate's
/// features name: this crate enables `ring` alone.) Nothing is stated of
/// the builder.
#[verifier::external_body]
fn server_config_builder() -> VersionedBuilder {
    VersionedBuilder { inner: RustlsConfig::builder() }
}

/// `ConfigBuilder::with_no_client_auth`: the builder of a server that asks
/// its clients for no certificate. Nothing is stated of the builder.
#[verifier::external_body]
fn no_client_auth(b: VersionedBuilder) -> CertBuilder {
    CertBuilder { inner: b.inner.with_no_client_auth() }
}

/// `ConfigBuilder::with_single_cert`: the configuration serving the DER
/// certificate chain `certs` with the private key `key` (both made into
/// the `rustls` key types), made into a `tokio_rustls::TlsAcceptor`; or
/// the error's text. It fails when the key is invalid for the builder's
/// crypto provider or does not match the chain's end-entity certificate;
/// which pairs those are is not stated.
#[verifier::external_body]
fn single_cert(b: CertBuilder, certs: Vec<Vec<u8>>, key: KeyDer) -> Result<tokio_rustls::TlsAcceptor, String> {
    let chain: Vec<rustls::pki_types::CertificateDer<'static>> =
        certs.into_iter().map(rustls::pki_types::CertificateDer::from).collect();
    let key: rustls::pki_types::PrivateKeyDer<'static> = match key.format {
        KeyFormat::Pkcs1 => rustls::pki_types::PrivatePkcs1KeyDer::from(key.der).into(),
        KeyFormat::Pkcs8 => rustls::pki_types::PrivatePkcs8KeyDer::from(key.der).into(),
    };
    match b.inner.with_single_cert(chain, key) {
        Ok(cfg) => Ok(tokio_rustls::TlsAcceptor::from(std::sync::Arc::new(cfg))),
        Err(e) => Err(e.to_string()),
    }
}

/// `rcgen::generate_simple_self_signed` for the subject names `names`: the
/// DER bytes of a certificate and of its fresh key pair (as PKCS#8), or the
/// error's text. The key is random; nothing is stated of the result.
#[verifier::external_body]
fn generate_self_signed(names: Vec<String>) -> Result<(Vec<u8>, Vec<u8>), String> {
    match rcgen::generate_simple_self_signed(names) {
        Ok(ck) => Ok((ck.cert.der().to_vec(), ck.key_pair.serialize_der())),
        Err(e) => Err(e.to_string()),
    }
}

/// `rustls` was handed the certificate chain `chain` with the key `key`,
/// on a builder for a server that asks clients for no certificate, and it
/// answered `ok` (whether it took them).
pub closed spec fn rustls_answered(chain: Seq<Seq<u8>>, key: (KeyFormat, Seq<u8>), ok: bool) -> bool {
    exists|b0: VersionedBuilder, b: CertBuilder, certs: Vec<Vec<u8>>, k: KeyDer, res: Result<tokio_rustls::TlsAcceptor, String>|
        #[trigger] call_ensures(no_client_auth, (b0,), b) && chain_view(certs@) == chain && k@ == key
            && (res is Ok) == ok && #[trigger] call_ensures(single_cert, (b, certs, k), res)
}

/// `rcgen` was asked for a self-signed certificate for the subject names
/// `names`, and answered `out`: the DER bytes of the certificate and of its
/// PKCS#8 key, or `None` for a failure.
pub closed spec fn rcgen_answered(names: Seq<Seq<char>>, out: Option<(Seq<u8>, Seq<u8>)>) -> bool {
    exists|ns: Vec<String>, res: Result<(Vec<u8>, Vec<u8>), String>|
        ns@.map_values(|n: String| n@) == names && #[trigger] call_ensures(generate_self_signed, (ns,), res)
            && match res {
            Ok((c, k)) => out == Some((c@, k@)),
            Err(_) => out is None,
        }
}

/// The server configuration of the chain `certs` and the key `key`, for a
/// server that asks clients for no certificate, made into an acceptor; or
/// the text of `rustls`'s refusal.
fn build_acceptor(certs: Vec<Vec<u8>>, key: KeyDer) -> (r: Result<tokio_rustls::TlsAcceptor, String>)
    ensures
        rustls_answered(chain_view(certs@), key@, r is Ok),
{
    let builder = server_config_builder();
    // Called through their function values, so that the calls are on record.
    let auth = no_client_auth;
    let take = single_cert;
    let ghost b0 = builder;
    let b = auth(builder);
    let ghost (bg, cg, kg) = (b, certs, key);
    let res = take(b, certs, key);
    assert(call_ensures(no_client_auth, (b0,), bg));
    assert(call_ensures(single_cert, (bg, cg, kg), res));
    res
}

/// The error text of a certificate file that does not parse.
pub open spec fn cert_parse_error_prefix(path: Seq<char>) -> Seq<char> {
    "parsing cert PEM "@ + path + ": "@
}

/// The DER certificate chain in the PEM text of the file `path`, in the
/// order the text holds it. A text that fails to read, or that holds no
/// certificate, is an error naming the file.
pub fn parse_cert_chain(path: &str, pem: &[u8]) -> (r: Result<Vec<Vec<u8>>, String>)
    ensures
        match pem_certificates(pem@) {
            None => r matches Err(m) && starts_with(m@, cert_parse_error_prefix(path@)),
            Some(cs) => if cs.len() == 0 {
                r matches Err(m) && m@ == "no certificates found in "@ + path@
            } else {
                r matches Ok(v) && chain_view(v@) == cs
            },
        },
{
    match pem_certs(pem) {
        Ok(certs) => {
            if certs.len() == 0 {
                let mut m = String::from_str("no certificates found in ");
                m.append(path);
                Err(m)
            } else {
                Ok(certs)
            }
        },
        Err(e) => {
            let mut m = String::from_str("parsing cert PEM ");
            m.append(path);
            m.append(": ");
            let ghost head = m@;
            m.append(e.as_str());
            proof {
                reveal_strlit("parsing cert PEM ");
                reveal_strlit(": ");
                assert(head == cert_parse_error_prefix(path@));
                assert(m@.take(head.len() as int) =~= head);
            }
            Err(m)
        },
    }
}

/// The key the key file's PEM text yields: with a password, the encrypted
/// PKCS#8 key it holds, decrypted; without, its first PKCS#8 key, or, when
/// it has none, its first RSA key. `None` when that fails.
pub open spec fn pem_key(pem: Seq<char>, password: Option<Seq<char>>) -> Option<(KeyFormat, Seq<u8>)> {
    match password {
        Some(pw) => match pem_decrypted(pem, pw) {
            Some(d) => Some((KeyFormat::Pkcs8, d)),
            None => None,
        },
        None => match pem_first_pkcs8_key(pem) {
            Some(Some(d)) => Some((KeyFormat::Pkcs8, d)),
            Some(None) => None,
            None => match pem_first_rsa_key(pem) {
                Some(Some(d)) => Some((KeyFormat::Pkcs1, d)),
                _ => None,
            },
        },
    }
}

/// The text of a password, if any.
pub open spec fn password_view(p: Option<&str>) -> Option<Seq<char>> {
    match p {
        Some(t) => Some(t@),
        None => None,
    }
}

/// The private key in the PEM text of the key file. With a password, the
/// text holds an encrypted PKCS#8 key, which is decrypted. Without, the
/// first PKCS#8 key is taken, or, when there is none, the first RSA
/// (PKCS#1) key. What fails to read or decrypt is an error saying so.
pub fn parse_private_key(pem: &str, password: Option<&str>) -> (r: Result<KeyDer, String>)
    ensures
        match pem_key(pem@, password_view(password)) {
            Some(k) => r matches Ok(key) && key@ == k,
            None => r is Err,
        },
        password is Some ==> (r matches Err(m) ==> starts_with(m@, "decrypting private key: "@)),
        password is None ==> match pem_first_pkcs8_key(pem@) {
            Some(d) => d is None ==> (r matches Err(m) && starts_with(m@, "parsing PKCS#8 key: "@)),
            None => match pem_first_rsa_key(pem@) {
                None => r matches Err(m) && m@ == "no PKCS#8 private key found"@,
                Some(d) => d is None ==> (r matches Err(m) && starts_with(m@, "parsing RSA key: "@)),
            },
        },
{
    if let Some(pw) = password {
        return match decrypt_pkcs8_pem(pem, pw) {
            Ok(der) => Ok(KeyDer { format: KeyFormat::Pkcs8, der }),
            Err(e) => Err(prefixed("decrypting private key: ", e.as_str())),
        };
    }
    match pem_pkcs8_key(pem) {
        Some(Ok(der)) => Ok(KeyDer { format: KeyFormat::Pkcs8, der }),
        Some(Err(e)) => Err(prefixed("parsing PKCS#8 key: ", e.as_str())),
        None => match pem_rsa_key(pem) {
            Some(Ok(der)) => Ok(KeyDer { format: KeyFormat::Pkcs1, der }),
            Some(Err(e)) => Err(prefixed("parsing RSA key: ", e.as_str())),
            None => Err(String::from_str("no PKCS#8 private key found")),
        },
    }
}

/// `head` followed by `tail`.
fn prefixed(head: &str, tail: &str) -> (m: String)
    ensures
        starts_with(m@, head@),
{
    let mut m = String::from_str(head);
    m.append(tail);
    assert(m@.take(head@.len() as int) =~= head@);
    m
}

/// The TLS server material of the SSL-TCP ports.
pub struct TlsMaterial {
    pub acceptor: tokio_rustls::TlsAcceptor,
}

impl TlsMaterial {
    /// Material for a DER certificate chain (as [`parse_cert_chain`] gives
    /// it) and the PEM text of the key file: the key as
    /// [`parse_private_key`] reads it, no client authentication. A key that
    /// does not read is that error; otherwise the chain and that key go to
    /// `rustls`, and its refusal is reported after `building ServerConfig: `.
    pub fn with_chain(certs: Vec<Vec<u8>>, key_pem: &str, password: Option<&str>) -> (r: Result<
        TlsMaterial,
        String,
    >)
        ensures
            match pem_key(key_pem@, password_view(password)) {
                None => r is Err,
                Some(k) => {
                    &&& rustls_answered(chain_view(certs@), k, r is Ok)
                    &&& r matches Err(m) ==> starts_with(m@, "building ServerConfig: "@)
                },
            },
    {
        let key = match parse_private_key(key_pem, password) {
            Ok(k) => k,
            Err(e) => return Err(e),
        };
        match build_acceptor(certs, key) {
            Ok(acceptor) => Ok(TlsMaterial { acceptor }),
            Err(e) => Err(prefixed("building ServerConfig: ", e.as_str())),
        }
    }

    /// Material with a freshly generated self-signed certificate for
    /// `localhost` (the fallback when no usable PEM files are configured):
    /// `rcgen` is asked for it, and its certificate, alone, goes to
    /// `rustls` with its key. The key is random, so whether either of them
    /// succeeds is not promised; the outcome is theirs.
    pub fn self_signed() -> (r: Result<TlsMaterial, String>)
        ensures
            exists|out: Option<(Seq<u8>, Seq<u8>)>| #[trigger] rcgen_answered(seq!["localhost"@], out),
            r is Ok ==> exists|c: Seq<u8>, k: Seq<u8>|
                #[trigger] rcgen_answered(seq!["localhost"@], Some((c, k))) && rustls_answered(
                    seq![c],
                    (KeyFormat::Pkcs8, k),
                    true,
                ),
            r is Err ==> rcgen_answered(seq!["localhost"@], None) || exists|c: Seq<u8>, k: Seq<u8>|
                #[trigger] rcgen_answered(seq!["localhost"@], Some((c, k))) && rustls_answered(
                    seq![c],
                    (KeyFormat::Pkcs8, k),
                    false,
                ),
    {
        let mut names: Vec<String> = Vec::new();
        names.push(String::from_str("localhost"));
        let ghost ns = names;
        proof {
            assert(names@.map_values(|n: String| n@) =~= seq!["localhost"@]);
        }
        // Called through its function value, so that the call is on record.
        let generate = generate_self_signed;
        let generated = generate(names);
        assert(call_ensures(generate_self_signed, (ns,), generated));
        let (cert, key) = match generated {
            Ok(ck) => ck,
            Err(e) => {
                assert(rcgen_answered(seq!["localhost"@], None));
                return Err(e);
            },
        };
        let ghost (c, k) = (cert@, key@);
        assert(rcgen_answered(seq!["localhost"@], Some((c, k))));
        let mut chain: Vec<Vec<u8>> = Vec::new();
        chain.push(cert);
        assert(chain_view(chain@) =~= seq![c]);
        let acceptor = build_acceptor(chain, KeyDer { format: KeyFormat::Pkcs8, der: key })?;
        Ok(TlsMaterial { acceptor })
    }
}

/// Where the TLS material of SSL-TCP ports comes from.
#[derive(Debug, Clone, Copy, PartialEq, Eq, Structural)]
pub enum TlsSource {
    /// The configured PEM certificate and key files.
    PemFiles,
    /// A self-signed certificate generated at start-up.
    SelfSigned,
}

/// PEM files are used when both a certificate and a key path are
/// configured; otherwise a self-signed certificate.
pub fn tls_source(cert_path: Option<&str>, key_path: Option<&str>) -> (s: TlsSource)
    ensures
        s == (if cert_path is Some && key_path is Some {
            TlsSource::PemFiles
        } else {
            TlsSource::SelfSigned
        }),
{
    if cert_path.is_some() && key_path.is_some() {
        TlsSource::PemFiles
    } else {
        TlsSource::SelfSigned
    }
}

} // verus!
