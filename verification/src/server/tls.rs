//! The certificates and the private key of a server, from PEM text.

use crate::server::error::{ServerError, ServerFault};
use crate::text;
use vstd::prelude::*;

verus! {

/// A private key in DER, by how it is encoded.
#[derive(Debug)]
pub enum PrivateKey {
    Pkcs1(Vec<u8>),
    Pkcs8(Vec<u8>),
    Sec1(Vec<u8>),
}

/// A private key as plain mathematics.
pub enum PrivateKeyView {
    Pkcs1(Seq<u8>),
    Pkcs8(Seq<u8>),
    Sec1(Seq<u8>),
}

impl View for PrivateKey {
    type V = PrivateKeyView;

    open spec fn view(&self) -> PrivateKeyView {
        match self {
            PrivateKey::Pkcs1(der) => PrivateKeyView::Pkcs1(der@),
            PrivateKey::Pkcs8(der) => PrivateKeyView::Pkcs8(der@),
            PrivateKey::Sec1(der) => PrivateKeyView::Sec1(der@),
        }
    }
}

/// Certificates in DER, each as a sequence.
pub open spec fn certs_view(certs: Seq<Vec<u8>>) -> Seq<Seq<u8>> {
    certs.map_values(|der: Vec<u8>| der@)
}

/// What looking for certificates gave, as plain mathematics.
pub open spec fn certs_result(r: Result<Vec<Vec<u8>>, String>) -> Result<
    Seq<Seq<u8>>,
    Seq<char>,
> {
    match r {
        Ok(certs) => Ok(certs_view(certs@)),
        Err(e) => Err(e@),
    }
}

/// What looking for a private key gave, as plain mathematics.
pub open spec fn key_result(r: Result<Option<PrivateKey>, String>) -> Result<
    Option<PrivateKeyView>,
    Seq<char>,
> {
    match r {
        Ok(Some(key)) => Ok(Some(key@)),
        Ok(None) => Ok(None),
        Err(e) => Err(e@),
    }
}

/// The certificates in PEM text, in DER, or what is wrong with the text.
pub uninterp spec fn pem_certs(pem: Seq<u8>) -> Result<Seq<Seq<u8>>, Seq<char>>;

/// The first private key in PEM text, if there is one, or what is wrong with the
/// text.
pub uninterp spec fn pem_private_key(pem: Seq<u8>) -> Result<Option<PrivateKeyView>, Seq<char>>;

/// `rustls_pemfile::certs`, up to its first error: a function of the text.
#[verifier::external_body]
fn parse_certs(pem: &[u8]) -> (r: Result<Vec<Vec<u8>>, String>)
    ensures
        certs_result(r) == pem_certs(pem@),
{
    let mut rest = pem;
    rustls_pemfile::certs(&mut rest)
        .map(|cert| cert.map(|der| der.to_vec()).map_err(|e| e.to_string()))
        .collect()
}

/// `rustls_pemfile::private_key`: a function of the text. It gives keys of the
/// three kinds only.
#[verifier::external_body]
fn parse_private_key(pem: &[u8]) -> (r: Result<Option<PrivateKey>, String>)
    ensures
        key_result(r) == pem_private_key(pem@),
{
    let mut rest = pem;
    Ok(match rustls_pemfile::private_key(&mut rest).map_err(|e| e.to_string())? {
        Some(rustls::pki_types::PrivateKeyDer::Pkcs1(key)) => {
            Some(PrivateKey::Pkcs1(key.secret_pkcs1_der().to_vec()))
        },
        Some(rustls::pki_types::PrivateKeyDer::Pkcs8(key)) => {
            Some(PrivateKey::Pkcs8(key.secret_pkcs8_der().to_vec()))
        },
        Some(rustls::pki_types::PrivateKeyDer::Sec1(key)) => {
            Some(PrivateKey::Sec1(key.secret_sec1_der().to_vec()))
        },
        _ => None,
    })
}

/// What a server makes of the certificates and the key that were looked for:
/// both, or the first thing that is wrong.
pub open spec fn material(
    certs: Result<Seq<Seq<u8>>, Seq<char>>,
    key: Result<Option<PrivateKeyView>, Seq<char>>,
) -> Result<(Seq<Seq<u8>>, PrivateKeyView), ServerFault> {
    match certs {
        Err(m) => Err(ServerFault::Config("parse cert: "@ + m)),
        Ok(certs) => match key {
            Err(m) => Err(ServerFault::Config("parse key: "@ + m)),
            Ok(None) => Err(ServerFault::Config("no private key"@)),
            Ok(Some(key)) => Ok((certs, key)),
        },
    }
}

/// A server has its certificates and its key exactly when both could be read and a key
/// was there. What is wrong with the certificates is told first.
pub proof fn law_material(certs: Seq<Seq<u8>>, key: PrivateKeyView, m: Seq<char>, k: Seq<char>)
    ensures
        material(Ok(certs), Ok(Some(key))) == Ok::<
            (Seq<Seq<u8>>, PrivateKeyView),
            ServerFault,
        >((certs, key)),
        material(Ok(certs), Ok(None)) == Err::<(Seq<Seq<u8>>, PrivateKeyView), ServerFault>(
            ServerFault::Config("no private key"@),
        ),
        material(Ok(certs), Err(k)) == Err::<(Seq<Seq<u8>>, PrivateKeyView), ServerFault>(
            ServerFault::Config("parse key: "@ + k),
        ),
        material(Err(m), Ok(Some(key))) == Err::<(Seq<Seq<u8>>, PrivateKeyView), ServerFault>(
            ServerFault::Config("parse cert: "@ + m),
        ),
        material(Err(m), Ok(None)) == Err::<(Seq<Seq<u8>>, PrivateKeyView), ServerFault>(
            ServerFault::Config("parse cert: "@ + m),
        ),
        material(Err(m), Err(k)) == Err::<(Seq<Seq<u8>>, PrivateKeyView), ServerFault>(
            ServerFault::Config("parse cert: "@ + m),
        ),
{
}

/// Certificates as sequences are as many, and each is what it is.
pub proof fn law_certs_view(certs: Vec<Vec<u8>>, at: int)
    requires
        0 <= at < certs@.len(),
    ensures
        certs_result(Ok(certs)) == Ok::<Seq<Seq<u8>>, Seq<char>>(certs_view(certs@)),
        certs_view(certs@).len() == certs@.len(),
        certs_view(certs@)[at] == certs@[at]@,
{
}

/// A key that was found is of the kind that it is, and an error has its text.
pub proof fn law_key_result(der: Vec<u8>, e: String)
    ensures
        key_result(Ok(Some(PrivateKey::Pkcs1(der)))) == Ok::<Option<PrivateKeyView>, Seq<char>>(
            Some(PrivateKeyView::Pkcs1(der@)),
        ),
        key_result(Ok(Some(PrivateKey::Pkcs8(der)))) == Ok::<Option<PrivateKeyView>, Seq<char>>(
            Some(PrivateKeyView::Pkcs8(der@)),
        ),
        key_result(Ok(Some(PrivateKey::Sec1(der)))) == Ok::<Option<PrivateKeyView>, Seq<char>>(
            Some(PrivateKeyView::Sec1(der@)),
        ),
        key_result(Ok(None)) == Ok::<Option<PrivateKeyView>, Seq<char>>(None),
        key_result(Err(e)) == Err::<Option<PrivateKeyView>, Seq<char>>(e@),
        certs_result(Err(e)) == Err::<Seq<Seq<u8>>, Seq<char>>(e@),
{
}

/// Put together the certificates and the key that were looked for.
pub fn assemble_material(
    certs: Result<Vec<Vec<u8>>, String>,
    key: Result<Option<PrivateKey>, String>,
) -> (r: Result<(Vec<Vec<u8>>, PrivateKey), ServerError>)
    ensures
        match r {
            Ok((c, k)) => material(certs_result(certs), key_result(key)) == Ok::<
                (Seq<Seq<u8>>, PrivateKeyView),
                ServerFault,
            >((certs_view(c@), k@)),
            Err(e) => material(certs_result(certs), key_result(key)) == Err::<
                (Seq<Seq<u8>>, PrivateKeyView),
                ServerFault,
            >(e@),
        },
{
    match certs {
        Err(m) => Err(ServerError::Config(text::concat2("parse cert: ", m.as_str()))),
        Ok(certs) => match key {
            Err(m) => Err(ServerError::Config(text::concat2("parse key: ", m.as_str()))),
            Ok(None) => Err(ServerError::Config("no private key".to_owned())),
            Ok(Some(key)) => Ok((certs, key)),
        },
    }
}

/// The certificates and the private key of a server, from the PEM text of each.
pub fn tls_material(cert_pem: &[u8], key_pem: &[u8]) -> (r: Result<
    (Vec<Vec<u8>>, PrivateKey),
    ServerError,
>)
    ensures
        match r {
            Ok((c, k)) => material(pem_certs(cert_pem@), pem_private_key(key_pem@)) == Ok::<
                (Seq<Seq<u8>>, PrivateKeyView),
                ServerFault,
            >((certs_view(c@), k@)),
            Err(e) => material(pem_certs(cert_pem@), pem_private_key(key_pem@)) == Err::<
                (Seq<Seq<u8>>, PrivateKeyView),
                ServerFault,
            >(e@),
        },
{
    assemble_material(parse_certs(cert_pem), parse_private_key(key_pem))
}

} // verus!
