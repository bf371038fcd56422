//! The calls into `x509-parser` and `webpki-roots`. Each wrapper takes a
//! certificate by its DER bytes and hands back plain values; what the
//! parser computes from those bytes is named, not restated.
use vstd::prelude::*;

use x509_parser::certificate::X509Certificate;
use x509_parser::prelude::FromDer;
use x509_parser::x509::SubjectPublicKeyInfo;

use crate::chain::AnchorKey;

verus! {

/// Which of a certificate's two distinguished names.
#[derive(Debug, Clone, Copy, PartialEq, Eq, Structural)]
pub enum NameField {
    Subject,
    Issuer,
}

/// Which end of a certificate's validity window.
#[derive(Debug, Clone, Copy, PartialEq, Eq, Structural)]
pub enum ValidityBound {
    NotBefore,
    NotAfter,
}

/// The error text with which `X509Certificate::from_der` rejects `der`, or
/// `None` when it parses.
pub uninterp spec fn x509_parse_failure(der: Seq<u8>) -> Option<Seq<char>>;

/// `der` parses as an X.509 certificate.
pub open spec fn x509_parses(der: Seq<u8>) -> bool {
    x509_parse_failure(der) is None
}

/// The raw DER (with its SEQUENCE header) of the certificate's subject or
/// issuer name (`X509Name::as_raw`).
pub uninterp spec fn x509_name_der(der: Seq<u8>, field: NameField) -> Seq<u8>;

/// The text form of the certificate's subject or issuer name (`X509Name`'s
/// `Display`, e.g. `CN=Example CA, O=Example`).
pub uninterp spec fn x509_name_text(der: Seq<u8>, field: NameField) -> Seq<char>;

/// The string value of the first common-name attribute of a name, when there
/// is one and it is a string type (`iter_common_name().next()` then
/// `as_str()`).
pub uninterp spec fn x509_common_name(der: Seq<u8>, field: NameField) -> Option<Seq<char>>;

/// The serial number as colon-separated hex (`raw_serial_as_string`).
pub uninterp spec fn x509_serial_text(der: Seq<u8>) -> Seq<char>;

/// The raw DER of the certificate's SubjectPublicKeyInfo
/// (`public_key().raw`, with its SEQUENCE header).
pub uninterp spec fn x509_key_der(der: Seq<u8>) -> Seq<u8>;

/// The dotted OID of the public key's algorithm
/// (`public_key().algorithm.algorithm.to_id_string()`).
pub uninterp spec fn x509_key_algorithm(der: Seq<u8>) -> Seq<char>;

/// One end of the validity window as nanoseconds since the Unix epoch
/// (`validity().not_before`/`not_after`, `to_datetime()`, then
/// `unix_timestamp_nanos()`).
pub uninterp spec fn x509_validity_nanos(der: Seq<u8>, bound: ValidityBound) -> i128;

/// The outcome of `X509Certificate::verify_signature` against `signer`, the
/// DER of a SubjectPublicKeyInfo (`None`: the certificate's own key), with
/// an error as its text; a signer that does not parse gives that parse
/// error's text.
pub uninterp spec fn x509_signature_check(der: Seq<u8>, signer: Option<Seq<u8>>) -> Result<
    (),
    Seq<char>,
>;

pub open spec fn opt_bytes(o: Option<&[u8]>) -> Option<Seq<u8>> {
    match o {
        Some(b) => Some(b@),
        None => None,
    }
}

/// `X509Certificate::from_der`: `None` when `der` parses, else the text of
/// the parse error.
#[verifier::external_body]
pub(crate) fn x509_parse_error(der: &[u8]) -> (r: Option<String>)
    ensures
        match r {
            Some(m) => x509_parse_failure(der@) == Some(m@),
            None => x509_parse_failure(der@) is None,
        },
{
    X509Certificate::from_der(der).err().map(|e| e.to_string())
}

/// `subject().as_raw()`.
#[verifier::external_body]
pub(crate) fn x509_subject_raw(der: &[u8]) -> (r: Vec<u8>)
    requires
        x509_parses(der@),
    ensures
        r@ == x509_name_der(der@, NameField::Subject),
{
    match X509Certificate::from_der(der) {
        Ok((_, cert)) => cert.subject().as_raw().to_vec(),
        Err(_) => Vec::new(),
    }
}

/// `issuer().as_raw()`.
#[verifier::external_body]
pub(crate) fn x509_issuer_raw(der: &[u8]) -> (r: Vec<u8>)
    requires
        x509_parses(der@),
    ensures
        r@ == x509_name_der(der@, NameField::Issuer),
{
    match X509Certificate::from_der(der) {
        Ok((_, cert)) => cert.issuer().as_raw().to_vec(),
        Err(_) => Vec::new(),
    }
}

/// `subject()` through `X509Name`'s `Display`.
#[verifier::external_body]
pub(crate) fn x509_subject_string(der: &[u8]) -> (r: String)
    requires
        x509_parses(der@),
    ensures
        r@ == x509_name_text(der@, NameField::Subject),
{
    match X509Certificate::from_der(der) {
        Ok((_, cert)) => cert.subject().to_string(),
        Err(_) => String::new(),
    }
}

/// `issuer()` through `X509Name`'s `Display`.
#[verifier::external_body]
pub(crate) fn x509_issuer_string(der: &[u8]) -> (r: String)
    requires
        x509_parses(der@),
    ensures
        r@ == x509_name_text(der@, NameField::Issuer),
{
    match X509Certificate::from_der(der) {
        Ok((_, cert)) => cert.issuer().to_string(),
        Err(_) => String::new(),
    }
}

/// `subject().iter_common_name().next()`, then `as_str()`.
#[verifier::external_body]
pub(crate) fn x509_subject_common_name(der: &[u8]) -> (r: Option<String>)
    requires
        x509_parses(der@),
    ensures
        match r {
            Some(s) => x509_common_name(der@, NameField::Subject) == Some(s@),
            None => x509_common_name(der@, NameField::Subject) is None,
        },
{
    let (_, cert) = X509Certificate::from_der(der).ok()?;
    let first = cert.subject().iter_common_name().next().and_then(|cn| cn.as_str().ok());
    first.map(|s| s.to_string())
}

/// `issuer().iter_common_name().next()`, then `as_str()`.
#[verifier::external_body]
pub(crate) fn x509_issuer_common_name(der: &[u8]) -> (r: Option<String>)
    requires
        x509_parses(der@),
    ensures
        match r {
            Some(s) => x509_common_name(der@, NameField::Issuer) == Some(s@),
            None => x509_common_name(der@, NameField::Issuer) is None,
        },
{
    let (_, cert) = X509Certificate::from_der(der).ok()?;
    let first = cert.issuer().iter_common_name().next().and_then(|cn| cn.as_str().ok());
    first.map(|s| s.to_string())
}

/// `TbsCertificate::raw_serial_as_string`.
#[verifier::external_body]
pub(crate) fn x509_serial(der: &[u8]) -> (r: String)
    requires
        x509_parses(der@),
    ensures
        r@ == x509_serial_text(der@),
{
    match X509Certificate::from_der(der) {
        Ok((_, cert)) => cert.raw_serial_as_string(),
        Err(_) => String::new(),
    }
}

/// `public_key().raw`: the DER of the certificate's SubjectPublicKeyInfo.
#[verifier::external_body]
pub(crate) fn x509_public_key_der(der: &[u8]) -> (r: Vec<u8>)
    requires
        x509_parses(der@),
    ensures
        r@ == x509_key_der(der@),
{
    match X509Certificate::from_der(der) {
        Ok((_, cert)) => cert.public_key().raw.to_vec(),
        Err(_) => Vec::new(),
    }
}

/// `public_key().algorithm.algorithm.to_id_string()`.
#[verifier::external_body]
pub(crate) fn x509_public_key_algorithm(der: &[u8]) -> (r: String)
    requires
        x509_parses(der@),
    ensures
        r@ == x509_key_algorithm(der@),
{
    match X509Certificate::from_der(der) {
        Ok((_, cert)) => cert.public_key().algorithm.algorithm.to_id_string(),
        Err(_) => String::new(),
    }
}

/// `validity().not_before`, `to_datetime()`, `unix_timestamp_nanos()`.
#[verifier::external_body]
pub(crate) fn x509_not_before(der: &[u8]) -> (r: i128)
    requires
        x509_parses(der@),
    ensures
        r == x509_validity_nanos(der@, ValidityBound::NotBefore),
{
    match X509Certificate::from_der(der) {
        Ok((_, cert)) => cert.validity().not_before.to_datetime().unix_timestamp_nanos(),
        Err(_) => 0,
    }
}

/// `validity().not_after`, `to_datetime()`, `unix_timestamp_nanos()`.
#[verifier::external_body]
pub(crate) fn x509_not_after(der: &[u8]) -> (r: i128)
    requires
        x509_parses(der@),
    ensures
        r == x509_validity_nanos(der@, ValidityBound::NotAfter),
{
    match X509Certificate::from_der(der) {
        Ok((_, cert)) => cert.validity().not_after.to_datetime().unix_timestamp_nanos(),
        Err(_) => 0,
    }
}

/// `X509Certificate::verify_signature`, the signer's key given by its DER.
#[verifier::external_body]
pub(crate) fn x509_verify_signature(der: &[u8], signer: Option<&[u8]>) -> (r: Result<(), String>)
    requires
        x509_parses(der@),
    ensures
        match r {
            Ok(()) => x509_signature_check(der@, opt_bytes(signer)) == Ok::<(), Seq<char>>(()),
            Err(m) => x509_signature_check(der@, opt_bytes(signer)) == Err::<(), Seq<char>>(m@),
        },
{
    let (_, cert) = X509Certificate::from_der(der).map_err(|e| e.to_string())?;
    let key = signer.map(|k| SubjectPublicKeyInfo::from_der(k).map(|(_, spki)| spki));
    let key = key.transpose().map_err(|e| e.to_string())?;
    cert.verify_signature(key.as_ref()).map_err(|e| e.to_string())
}

/// Entry `index` of `webpki_roots::TLS_SERVER_ROOTS` as the store keeps it:
/// the contents (without the outer SEQUENCE header) of its subject and of
/// its SubjectPublicKeyInfo; `None` past the end of the table.
pub uninterp spec fn webpki_anchor(index: int) -> Option<(Seq<u8>, Seq<u8>)>;

/// `webpki_roots::TLS_SERVER_ROOTS.get(index)`, the entry's subject and key
/// copied out.
#[verifier::external_body]
pub(crate) fn webpki_trust_anchor(index: usize) -> (r: Option<AnchorKey>)
    ensures
        match r {
            Some(a) => webpki_anchor(index as int) == Some((a.subject@, a.spki@)),
            None => webpki_anchor(index as int) is None,
        },
{
    webpki_roots::TLS_SERVER_ROOTS.get(index).map(
        |a| AnchorKey { subject: a.subject.to_vec(), spki: a.subject_public_key_info.to_vec() },
    )
}

} // verus!
