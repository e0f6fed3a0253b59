//! Certificates: reading them from PEM texts, and their fingerprints.
use vstd::prelude::*;

verus! {

/// The contents of a PEM text, by the `pem` crate, or what is wrong with it.
pub uninterp spec fn pem_contents(text: Seq<char>) -> Result<Seq<u8>, Seq<char>>;

/// `pem::parse` and `Pem::contents`: the bytes of the first PEM block, or the message of the error.
/// Both depend on the text alone.
#[verifier::external_body]
fn parse_pem(text: &str) -> (r: Result<Vec<u8>, String>)
    ensures
        match r {
            Ok(b) => pem_contents(text@) == Ok::<Seq<u8>, Seq<char>>(b@),
            Err(e) => pem_contents(text@) == Err::<Seq<u8>, Seq<char>>(e@),
        },
{
    match pem::parse(text) {
        Ok(p) => Ok(p.into_contents()),
        Err(e) => Err(e.to_string()),
    }
}

/// The fingerprint of a certificate, by `rustrtc`.
pub uninterp spec fn certificate_fingerprint(der: Seq<u8>) -> Seq<char>;

/// `rustrtc::transports::dtls::fingerprint`: the fingerprint of the first certificate of a chain.
/// It depends on the bytes of that certificate alone.
#[verifier::external_body]
fn chain_fingerprint(der: Vec<u8>) -> (r: String)
    ensures
        r@ == certificate_fingerprint(der@),
{
    let mut cert = rustrtc::transports::dtls::Certificate::default();
    cert.certificate = vec![der];
    rustrtc::transports::dtls::fingerprint(&cert)
}

/// A certificate and its private key.
#[derive(Debug)]
pub struct CertificateData {
    /// The chain, the certificate itself first.
    pub certificate: Vec<Vec<u8>>,
    /// The private key, as a PEM text.
    pub private_key: String,
}

/// What is said when a file cannot be read or parsed.
pub open spec fn file_error(what: Seq<char>, path: Seq<char>) -> Seq<char> {
    "Failed to "@ + what + " from "@ + path
}

fn make_file_error(what: &str, path: &str) -> (r: String)
    ensures
        r@ == file_error(what@, path@),
{
    "Failed to ".to_owned().concat(what).concat(" from ").concat(path)
}

/// The certificate that files give: `None` stands for a file that cannot be read, and `contents` is
/// what the text of the certificate file holds.
pub open spec fn certificate_of(
    cert_path: Seq<char>,
    cert_pem: Option<Seq<char>>,
    key_path: Seq<char>,
    key_pem: Option<Seq<char>>,
    contents: Result<Seq<u8>, Seq<char>>,
) -> Result<(Seq<u8>, Seq<char>), Seq<char>> {
    match (cert_pem, key_pem) {
        (None, _) => Err(file_error("read DTLS cert"@, cert_path)),
        (_, None) => Err(file_error("read DTLS key"@, key_path)),
        (Some(_), Some(key)) => match contents {
            Ok(der) => Ok((der, key)),
            Err(_) => Err(file_error("parse DTLS cert PEM"@, cert_path)),
        },
    }
}

/// Whether `r` is what `expected` says: a chain of one certificate and its key, or an error.
pub open spec fn is_certificate(
    r: Result<CertificateData, String>,
    expected: Result<(Seq<u8>, Seq<char>), Seq<char>>,
) -> bool {
    match expected {
        Ok((der, key)) => r matches Ok(c) && c.certificate@.len() == 1 && c.certificate@[0]@ == der
            && c.private_key@ == key,
        Err(e) => r matches Err(t) && t@ == e,
    }
}

/// The certificate made of the contents of its PEM text and its key.
pub fn make_certificate(
    cert_path: &str,
    contents: Result<Vec<u8>, String>,
    key_pem: String,
) -> (r: Result<CertificateData, String>)
    ensures
        match contents {
            Ok(der) => r matches Ok(c) && c.certificate@ == seq![der] && c.private_key@ == key_pem@,
            Err(_) => r matches Err(t) && t@ == file_error("parse DTLS cert PEM"@, cert_path@),
        },
{
    match contents {
        Ok(der) => {
            let mut certificate: Vec<Vec<u8>> = Vec::new();
            certificate.push(der);
            assert(certificate@ =~= seq![der]);
            Ok(CertificateData { certificate, private_key: key_pem })
        },
        Err(_) => Err(make_file_error("parse DTLS cert PEM", cert_path)),
    }
}

/// Reads a certificate and its key from the texts of their files. `None` stands for a file that
/// cannot be read.
pub fn load_certificate(
    cert_path: &str,
    cert_pem: Option<String>,
    key_path: &str,
    key_pem: Option<String>,
) -> (r: Result<CertificateData, String>)
    ensures
        is_certificate(
            r,
            certificate_of(
                cert_path@,
                cert_pem.deep_view(),
                key_path@,
                key_pem.deep_view(),
                match cert_pem {
                    Some(t) => pem_contents(t@),
                    None => Err(Seq::empty()),
                },
            ),
        ),
{
    let cert_text = match cert_pem {
        Some(t) => t,
        None => return Err(make_file_error("read DTLS cert", cert_path)),
    };
    let key = match key_pem {
        Some(t) => t,
        None => return Err(make_file_error("read DTLS key", key_path)),
    };
    make_certificate(cert_path, parse_pem(cert_text.as_str()), key)
}

/// The fingerprint that a certificate is known by.
pub fn fingerprint(certificate: &CertificateData) -> (r: String)
    requires
        certificate.certificate@.len() > 0,
    ensures
        r@ == certificate_fingerprint(certificate.certificate@[0]@),
{
    let der = certificate.certificate[0].clone();
    assert(der@ =~= certificate.certificate@[0]@);
    chain_fingerprint(der)
}

/// A certificate is loaded exactly if both files can be read and the first holds one, and then it is
/// that certificate with that key. Otherwise the error names the file that is at fault, the
/// certificate before the key.
pub proof fn law_certificate_needs_both_files(
    cert_path: Seq<char>,
    cert_pem: Option<Seq<char>>,
    key_path: Seq<char>,
    key_pem: Option<Seq<char>>,
    contents: Result<Seq<u8>, Seq<char>>,
)
    ensures
        ({
            let r = certificate_of(cert_path, cert_pem, key_path, key_pem, contents);
            &&& r is Ok <==> cert_pem is Some && key_pem is Some && contents is Ok
            &&& r matches Ok((der, key)) ==> contents == Ok::<Seq<u8>, Seq<char>>(der) && key_pem
                == Some(key)
            &&& cert_pem is None ==> r == Err::<(Seq<u8>, Seq<char>), Seq<char>>(
                "Failed to "@ + "read DTLS cert"@ + " from "@ + cert_path,
            )
            &&& cert_pem is Some && key_pem is None ==> r == Err::<(Seq<u8>, Seq<char>), Seq<char>>(
                "Failed to "@ + "read DTLS key"@ + " from "@ + key_path,
            )
            &&& cert_pem is Some && key_pem is Some && contents is Err ==> r == Err::<
                (Seq<u8>, Seq<char>),
                Seq<char>,
            >("Failed to "@ + "parse DTLS cert PEM"@ + " from "@ + cert_path)
        }),
{
}

} // verus!
