//! The server's TLS settings, read from PEM files.
use vstd::prelude::*;
use vstd::slice::slice_subrange;

verus! {

/// A PEM section, as the parts the server reads of it.
pub enum PemItem {
    X509Certificate(Vec<u8>),
    Pkcs1Key(Vec<u8>),
    Pkcs8Key(Vec<u8>),
    Sec1Key(Vec<u8>),
    /// Any other kind of section (public key, CRL, CSR).
    Other,
}

/// The content of a PEM section.
pub enum PemItemView {
    X509Certificate(Seq<u8>),
    Pkcs1Key(Seq<u8>),
    Pkcs8Key(Seq<u8>),
    Sec1Key(Seq<u8>),
    Other,
}

impl View for PemItem {
    type V = PemItemView;

    open spec fn view(&self) -> PemItemView {
        match self {
            PemItem::X509Certificate(d) => PemItemView::X509Certificate(d@),
            PemItem::Pkcs1Key(d) => PemItemView::Pkcs1Key(d@),
            PemItem::Pkcs8Key(d) => PemItemView::Pkcs8Key(d@),
            PemItem::Sec1Key(d) => PemItemView::Sec1Key(d@),
            PemItem::Other => PemItemView::Other,
        }
    }
}

/// What reading the first PEM section of `input` gives: a parse error (its
/// description), no section, or the section and the length of what follows it.
pub uninterp spec fn pem_read_one(input: Seq<u8>) -> Result<Option<(PemItemView, nat)>, Seq<char>>;

/// The view of a read's result.
pub open spec fn read_view(r: Result<Option<(PemItem, usize)>, String>) -> Result<Option<(PemItemView, nat)>, Seq<char>> {
    match r {
        Ok(Some((item, rest))) => Ok(Some((item@, rest as nat))),
        Ok(None) => Ok(None),
        Err(e) => Err(e@),
    }
}

/// Reads the first PEM section of `input` with
/// `rustls_pemfile::read_one_from_slice`. Its result is named
/// `pem_read_one`; of it this states what the source shows: a section read
/// leaves a strictly shorter rest, for it took at least its "BEGIN" line.
#[verifier::external_body]
fn read_one_from_slice(input: &[u8]) -> (r: Result<Option<(PemItem, usize)>, String>)
    ensures
        read_view(r) == pem_read_one(input@),
        r matches Ok(Some((_, rest))) ==> rest < input@.len(),
{
    match rustls_pemfile::read_one_from_slice(input) {
        Err(e) => Err(format!("{:?}", e)),
        Ok(None) => Ok(None),
        Ok(Some((item, rest))) => {
            let item = match item {
                rustls_pemfile::Item::X509Certificate(c) => PemItem::X509Certificate(c.as_ref().to_vec()),
                rustls_pemfile::Item::Pkcs1Key(k) => PemItem::Pkcs1Key(k.secret_pkcs1_der().to_vec()),
                rustls_pemfile::Item::Pkcs8Key(k) => PemItem::Pkcs8Key(k.secret_pkcs8_der().to_vec()),
                rustls_pemfile::Item::Sec1Key(k) => PemItem::Sec1Key(k.secret_sec1_der().to_vec()),
                _ => PemItem::Other,
            };
            Ok(Some((item, rest.len())))
        },
    }
}

/// The encoding of a private key.
#[derive(Debug, Clone, Copy, PartialEq, Eq, Structural)]
pub enum KeyKind {
    Pkcs1,
    Pkcs8,
    Sec1,
}

/// Why the TLS settings could not be read.
pub enum TlsError {
    /// "can't resolve key": the key file does not parse.
    CantResolveKey(String),
    /// "invalid key data": no section, or no private key.
    InvalidKeyData,
    /// "can't resolve cert": the certificate file does not parse.
    CantResolveCert(String),
    /// "invalid cert data": a section that is no certificate, or none.
    InvalidCertData,
}

/// The view of a TLS error.
pub enum TlsErrorView {
    CantResolveKey(Seq<char>),
    InvalidKeyData,
    CantResolveCert(Seq<char>),
    InvalidCertData,
}

impl View for TlsError {
    type V = TlsErrorView;

    open spec fn view(&self) -> TlsErrorView {
        match self {
            TlsError::CantResolveKey(e) => TlsErrorView::CantResolveKey(e@),
            TlsError::InvalidKeyData => TlsErrorView::InvalidKeyData,
            TlsError::CantResolveCert(e) => TlsErrorView::CantResolveCert(e@),
            TlsError::InvalidCertData => TlsErrorView::InvalidCertData,
        }
    }
}

/// The server's TLS settings: the port, the private key and the certificate chain.
pub struct Tls {
    pub port: u16,
    pub key_kind: KeyKind,
    pub key: Vec<u8>,
    pub cert_chain: Vec<Vec<u8>>,
}

/// The first section of the key file: an error that it does not parse, or
/// that it has no section; otherwise the section.
pub open spec fn key_section(r: Result<Option<(PemItemView, nat)>, Seq<char>>) -> Result<PemItemView, TlsErrorView> {
    match r {
        Err(e) => Err(TlsErrorView::CantResolveKey(e)),
        Ok(None) => Err(TlsErrorView::InvalidKeyData),
        Ok(Some((item, _))) => Ok(item),
    }
}

/// The certificates of a certificate file, read section by section to its
/// end: each must be a certificate.
pub open spec fn cert_chain_of(input: Seq<u8>) -> Result<Seq<Seq<u8>>, TlsErrorView>
    decreases input.len(),
{
    match pem_read_one(input) {
        Err(e) => Err(TlsErrorView::CantResolveCert(e)),
        Ok(None) => Err(TlsErrorView::InvalidCertData),
        Ok(Some((PemItemView::X509Certificate(der), rest))) => {
            if rest == 0 {
                Ok(seq![der])
            } else if rest < input.len() {
                match cert_chain_of(input.subrange(input.len() - rest, input.len() as int)) {
                    Ok(chain) => Ok(seq![der] + chain),
                    Err(e) => Err(e),
                }
            } else {
                Err(TlsErrorView::InvalidCertData)
            }
        },
        Ok(Some(_)) => Err(TlsErrorView::InvalidCertData),
    }
}

/// The private key of a key section, when it is one.
pub open spec fn private_key(item: PemItemView) -> Option<(KeyKind, Seq<u8>)> {
    match item {
        PemItemView::Pkcs1Key(d) => Some((KeyKind::Pkcs1, d)),
        PemItemView::Pkcs8Key(d) => Some((KeyKind::Pkcs8, d)),
        PemItemView::Sec1Key(d) => Some((KeyKind::Sec1, d)),
        _ => None,
    }
}

/// What reading the key file and the certificate file gives: first the key
/// file's section, then the certificates, then the key's encoding.
pub open spec fn tls_of(key: Seq<u8>, cert: Seq<u8>) -> Result<((KeyKind, Seq<u8>), Seq<Seq<u8>>), TlsErrorView> {
    match key_section(pem_read_one(key)) {
        Err(e) => Err(e),
        Ok(item) => match cert_chain_of(cert) {
            Err(e) => Err(e),
            Ok(chain) => match private_key(item) {
                Some(k) => Ok((k, chain)),
                None => Err(TlsErrorView::InvalidKeyData),
            },
        },
    }
}

/// Takes the result of reading the key file's first section.
pub fn key_from_read(r: Result<Option<(PemItem, usize)>, String>) -> (k: Result<PemItem, TlsError>)
    ensures
        match k {
            Ok(item) => key_section(read_view(r)) == Ok::<PemItemView, TlsErrorView>(item@),
            Err(e) => key_section(read_view(r)) == Err::<PemItemView, TlsErrorView>(e@),
        },
{
    match r {
        Err(e) => Err(TlsError::CantResolveKey(e)),
        Ok(None) => Err(TlsError::InvalidKeyData),
        Ok(Some((item, _))) => Ok(item),
    }
}

/// Takes the result of reading one section of the certificate file: the
/// certificate and the length of what follows it, or why the file is refused.
pub fn cert_from_read(r: Result<Option<(PemItem, usize)>, String>) -> (c: Result<(Vec<u8>, usize), TlsError>)
    ensures
        match c {
            Ok((der, rest)) => read_view(r) == Ok::<Option<(PemItemView, nat)>, Seq<char>>(Some((PemItemView::X509Certificate(der@), rest as nat))),
            Err(e) => match read_view(r) {
                Err(m) => e@ == TlsErrorView::CantResolveCert(m),
                Ok(Some((PemItemView::X509Certificate(_), _))) => false,
                Ok(_) => e@ == TlsErrorView::InvalidCertData,
            },
        },
{
    match r {
        Err(e) => Err(TlsError::CantResolveCert(e)),
        Ok(None) => Err(TlsError::InvalidCertData),
        Ok(Some((PemItem::X509Certificate(der), rest))) => Ok((der, rest)),
        Ok(Some(_)) => Err(TlsError::InvalidCertData),
    }
}

/// Takes the key section: its encoding and bytes, when it is a private key.
pub fn key_from_item(item: PemItem) -> (k: Result<(KeyKind, Vec<u8>), TlsError>)
    ensures
        match k {
            Ok((kind, der)) => private_key(item@) == Some((kind, der@)),
            Err(e) => private_key(item@) is None && e@ == TlsErrorView::InvalidKeyData,
        },
{
    match item {
        PemItem::Pkcs1Key(d) => Ok((KeyKind::Pkcs1, d)),
        PemItem::Pkcs8Key(d) => Ok((KeyKind::Pkcs8, d)),
        PemItem::Sec1Key(d) => Ok((KeyKind::Sec1, d)),
        _ => Err(TlsError::InvalidKeyData),
    }
}

impl Tls {
    /// Reads the TLS settings from the PEM text of a key file and of a
    /// certificate file (see `tls_of`).
    pub fn new(port: u16, key: &[u8], cert: &[u8]) -> (r: Result<Tls, TlsError>)
        ensures
            match r {
                Ok(t) => t.port == port && tls_of(key@, cert@) == Ok::<((KeyKind, Seq<u8>), Seq<Seq<u8>>), TlsErrorView>(
                    ((t.key_kind, t.key@), t.cert_chain@.map_values(|c: Vec<u8>| c@)),
                ),
                Err(e) => tls_of(key@, cert@) == Err::<((KeyKind, Seq<u8>), Seq<Seq<u8>>), TlsErrorView>(e@),
            },
    {
        let key_item = match key_from_read(read_one_from_slice(key)) {
            Ok(item) => item,
            Err(e) => return Err(e),
        };
        let mut cert_chain: Vec<Vec<u8>> = Vec::new();
        let mut cert_slice = cert;
        let ghost key_v = key_item@;
        loop
            invariant_except_break
                cert_chain_of(cert@) == (match cert_chain_of(cert_slice@) {
                    Ok(rest) => Ok::<Seq<Seq<u8>>, TlsErrorView>(cert_chain@.map_values(|c: Vec<u8>| c@) + rest),
                    Err(e) => Err(e),
                }),
            invariant
                key_section(pem_read_one(key@)) == Ok::<PemItemView, TlsErrorView>(key_v),
                key_item@ == key_v,
            ensures
                cert_chain_of(cert@) == Ok::<Seq<Seq<u8>>, TlsErrorView>(cert_chain@.map_values(|c: Vec<u8>| c@)),
            decreases cert_slice@.len(),
        {
            let r = read_one_from_slice(cert_slice);
            let ghost input = cert_slice@;
            let (der, rest) = match cert_from_read(r) {
                Ok(c) => c,
                Err(e) => {
                    proof {
                        assert(cert_chain_of(cert_slice@) == Err::<Seq<Seq<u8>>, TlsErrorView>(e@));
                    }
                    return Err(e);
                },
            };
            let ghost der_v = der@;
            let ghost prefix = cert_chain@.map_values(|c: Vec<u8>| c@);
            cert_chain.push(der);
            proof {
                assert(cert_chain@.map_values(|c: Vec<u8>| c@) =~= prefix.push(der_v));
            }
            if rest == 0 {
                proof {
                    assert(cert_chain_of(input) == Ok::<Seq<Seq<u8>>, TlsErrorView>(seq![der_v]));
                    assert(prefix + seq![der_v] =~= prefix.push(der_v));
                }
                break;
            }
            let start = cert_slice.len() - rest;
            cert_slice = slice_subrange(cert_slice, start, cert_slice.len());
            proof {
                assert(cert_slice@ =~= input.subrange(input.len() - rest, input.len() as int));
                match cert_chain_of(cert_slice@) {
                    Ok(c) => {
                        assert(prefix + (seq![der_v] + c) =~= prefix.push(der_v) + c);
                    },
                    Err(_) => {},
                }
            }
        }
        let (key_kind, key_der) = match key_from_item(key_item) {
            Ok(k) => k,
            Err(e) => return Err(e),
        };
        Ok(Tls { port, key_kind, key: key_der, cert_chain })
    }
}

/// Each encoding of a private key that a PEM file may hold (PKCS#1, PKCS#8
/// and SEC1) is taken as the key, with its kind and its bytes as they are;
/// a certificate or any other section is no key.
pub proof fn lemma_private_key_encodings(d: Seq<u8>)
    ensures
        private_key(PemItemView::Pkcs1Key(d)) == Some((KeyKind::Pkcs1, d)),
        private_key(PemItemView::Pkcs8Key(d)) == Some((KeyKind::Pkcs8, d)),
        private_key(PemItemView::Sec1Key(d)) == Some((KeyKind::Sec1, d)),
        private_key(PemItemView::X509Certificate(d)) is None,
        private_key(PemItemView::Other) is None,
{
}

/// A key file whose first section is a SEC1, PKCS#8 or PKCS#1 private key,
/// with a certificate file that reads as a chain, gives the settings with
/// that key and that chain.
pub proof fn lemma_tls_accepts_every_key_kind(key: Seq<u8>, cert: Seq<u8>, d: Seq<u8>, rest: nat)
    requires
        cert_chain_of(cert) is Ok,
    ensures
        pem_read_one(key) == Ok::<Option<(PemItemView, nat)>, Seq<char>>(Some((PemItemView::Sec1Key(d), rest)))
            ==> tls_of(key, cert) == Ok::<((KeyKind, Seq<u8>), Seq<Seq<u8>>), TlsErrorView>(((KeyKind::Sec1, d), cert_chain_of(cert)->Ok_0)),
        pem_read_one(key) == Ok::<Option<(PemItemView, nat)>, Seq<char>>(Some((PemItemView::Pkcs8Key(d), rest)))
            ==> tls_of(key, cert) == Ok::<((KeyKind, Seq<u8>), Seq<Seq<u8>>), TlsErrorView>(((KeyKind::Pkcs8, d), cert_chain_of(cert)->Ok_0)),
        pem_read_one(key) == Ok::<Option<(PemItemView, nat)>, Seq<char>>(Some((PemItemView::Pkcs1Key(d), rest)))
            ==> tls_of(key, cert) == Ok::<((KeyKind, Seq<u8>), Seq<Seq<u8>>), TlsErrorView>(((KeyKind::Pkcs1, d), cert_chain_of(cert)->Ok_0)),
{
}

} // verus!
