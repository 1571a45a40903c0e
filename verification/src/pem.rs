//! The server's certificate chain and private key, read from the text of
//! PEM files.
use vstd::prelude::*;

use rustls_pki_types::PrivateKeyDer;

verus! {

/// Lets the functions below hold private keys, whose bytes stay hidden.
#[verifier::external_type_specification]
#[verifier::external_body]
pub struct ExPrivateKeyDer<'a>(PrivateKeyDer<'a>);

/// Why a PEM file was refused.
#[derive(Debug, Clone, Copy, PartialEq, Eq, Structural)]
pub enum PemError {
    /// A section of the file could not be read.
    Malformed,
    /// The file holds no certificate.
    NoCertificates,
    /// The file holds no private key.
    NoPrivateKey,
}

/// The DER bytes of the certificates `rustls_pemfile::certs` finds in `pem`,
/// in file order, or `None` when it reports a malformed section.
pub uninterp spec fn pem_certificate_ders(pem: Seq<u8>) -> Option<Seq<Seq<u8>>>;

/// The byte sequences held in a list of byte vectors.
pub open spec fn ders_of(v: Vec<Vec<u8>>) -> Seq<Seq<u8>> {
    v@.map_values(|d: Vec<u8>| d@)
}

/// Whether `rustls_pemfile::private_key` finds a private key in `pem`, or
/// `None` when it reports a malformed section.
pub uninterp spec fn pem_private_key(pem: Seq<u8>) -> Option<bool>;

/// `rustls_pemfile::certs` on the text of a PEM file, collected: the DER
/// bytes of each certificate (`CertificateDer::as_ref`) in file order, or
/// `None` when it reports an error. Which sections it takes is the PEM
/// grammar; the contract ties the result to `pem_certificate_ders`.
#[verifier::external_body]
fn read_pem_certificates(pem: &[u8]) -> (r: Option<Vec<Vec<u8>>>)
    ensures
        r matches Some(v) ==> pem_certificate_ders(pem@) == Some(ders_of(v)),
        r is None ==> pem_certificate_ders(pem@) is None,
{
    let mut reader: &[u8] = pem;
    let certs = rustls_pemfile::certs(&mut reader).collect::<Result<Vec<_>, _>>().ok()?;
    Some(certs.iter().map(|c| c.as_ref().to_vec()).collect())
}

/// `rustls_pemfile::private_key` on the text of a PEM file: the first
/// private key, `Some(None)` when there is none, or `None` when it reports an
/// error. The contract ties the outcome to `pem_private_key`.
#[verifier::external_body]
fn read_pem_private_key(pem: &[u8]) -> (r: Option<Option<PrivateKeyDer<'static>>>)
    ensures
        r matches Some(k) ==> pem_private_key(pem@) == Some(k is Some),
        r is None ==> pem_private_key(pem@) is None,
{
    let mut reader: &[u8] = pem;
    rustls_pemfile::private_key(&mut reader).ok()
}

/// The DER bytes of the certificates in the text of a PEM file, in file
/// order: refused when a section is malformed or when there is none.
pub fn parse_certificates(pem: &[u8]) -> (r: Result<Vec<Vec<u8>>, PemError>)
    ensures
        r matches Ok(v) ==> pem_certificate_ders(pem@) == Some(ders_of(v)) && v.len() > 0,
        r is Ok <==> (pem_certificate_ders(pem@) matches Some(d) && d.len() > 0),
        r == Err::<Vec<Vec<u8>>, PemError>(PemError::Malformed) <==> pem_certificate_ders(
            pem@,
        ) is None,
        r == Err::<Vec<Vec<u8>>, PemError>(PemError::NoCertificates) <==> (pem_certificate_ders(
            pem@,
        ) matches Some(d) && d.len() == 0),
{
    match read_pem_certificates(pem) {
        None => Err(PemError::Malformed),
        Some(certs) => {
            if certs.len() == 0 {
                Err(PemError::NoCertificates)
            } else {
                Ok(certs)
            }
        },
    }
}

/// The first private key in the text of a PEM file: refused when a section
/// is malformed or when there is none.
pub fn parse_private_key(pem: &[u8]) -> (r: Result<PrivateKeyDer<'static>, PemError>)
    ensures
        r is Ok <==> pem_private_key(pem@) == Some(true),
        r == Err::<PrivateKeyDer<'static>, PemError>(PemError::Malformed) <==> pem_private_key(
            pem@,
        ) is None,
        r == Err::<PrivateKeyDer<'static>, PemError>(PemError::NoPrivateKey) <==> pem_private_key(
            pem@,
        ) == Some(false),
{
    match read_pem_private_key(pem) {
        None => Err(PemError::Malformed),
        Some(None) => Err(PemError::NoPrivateKey),
        Some(Some(key)) => Ok(key),
    }
}

} // verus!
