//! The server's throw-away certificate and its fingerprint.

use vstd::prelude::*;

use crate::orchestrator::concat_text;
use crate::test::port::{compute_sha256, sha256_digest};
use crate::text::hex_text;

verus! {

/// How a client names a server certificate: `SHA256:` and the lowercase hex
/// SHA-256 digest of the certificate's DER bytes.
pub open spec fn fingerprint_text(cert_der: Seq<u8>) -> Seq<char> {
    "SHA256:"@ + hex_text(sha256_digest(cert_der))
}

/// The fingerprint of a certificate given by its DER bytes.
pub fn certificate_fingerprint(cert_der: &[u8]) -> (r: String)
    ensures
        r@ == fingerprint_text(cert_der@),
        r@.len() == 71,
{
    let digest = compute_sha256(cert_der);
    proof {
        reveal_strlit("SHA256:");
    }
    concat_text("SHA256:", digest.as_str())
}

#[verifier::external_type_specification]
#[verifier::external_body]
pub struct ExKeyPair(rcgen::KeyPair);

#[verifier::external_type_specification]
#[verifier::external_body]
pub struct ExRcgenError(rcgen::Error);

/// Calls rcgen's `KeyPair::generate`, which draws a fresh random ECDSA P-256
/// key pair. Nothing is stated of the result: it rests on chance.
#[verifier::external_body]
fn generate_key_pair() -> (r: Result<rcgen::KeyPair, rcgen::Error>) {
    rcgen::KeyPair::generate()
}

/// Whom a certificate names: the subject's common name and its one DNS
/// subject alternative name.
#[derive(Debug, Clone)]
pub struct CertSubject {
    pub common_name: String,
    pub dns_name: String,
}

/// The subject of the server's throw-away certificate.
pub fn ephemeral_subject() -> (r: CertSubject)
    ensures
        r.common_name@ == "bimap-ephemeral"@,
        r.dns_name@ == "localhost"@,
{
    CertSubject { common_name: "bimap-ephemeral".to_owned(), dns_name: "localhost".to_owned() }
}

/// Calls rcgen's `CertificateParams::self_signed` with `key_pair` on default
/// parameters that carry the subject's common name and, converted by
/// `Ia5String::try_from`, its DNS name as the one subject alternative name;
/// returns the certificate's DER bytes and, from `KeyPair::serialize_der`,
/// the PKCS#8 DER of that same signing key. Trusted: a certificate it gives
/// is not empty (rcgen writes it as a DER SEQUENCE through yasna, whose tag
/// and length come first). Nothing more is stated of the bytes: the key and
/// the signature rest on chance.
#[verifier::external_body]
fn self_signed_der(key_pair: &rcgen::KeyPair, subject: &CertSubject) -> (r: Result<(Vec<u8>, Vec<u8>), rcgen::Error>)
    ensures
        r matches Ok((cert, _key)) ==> cert@.len() > 0,
{
    let mut params = rcgen::CertificateParams::default();
    let mut dn = rcgen::DistinguishedName::new();
    dn.push(rcgen::DnType::CommonName, subject.common_name.as_str());
    params.distinguished_name = dn;
    params.subject_alt_names.push(rcgen::SanType::DnsName(rcgen::Ia5String::try_from(subject.dns_name.as_str())?));
    let cert = params.self_signed(key_pair)?;
    Ok((cert.der().to_vec(), key_pair.serialize_der()))
}

/// rcgen's description of an error (its `Display`). Nothing is stated of the text.
#[verifier::external_body]
fn rcgen_error_text(e: &rcgen::Error) -> (r: String) {
    e.to_string()
}

/// A fresh self-signed certificate for `ephemeral_subject()` (common name
/// `bimap-ephemeral`, DNS name `localhost`), the private key that signed it,
/// both as DER bytes, and the certificate's fingerprint. Each failure of the certificate library is
/// reported with the step that failed.
pub fn generate_ephemeral_cert() -> (r: Result<(Vec<u8>, Vec<u8>, String), String>)
    ensures
        r matches Ok((cert, _key, fingerprint)) ==> fingerprint@ == fingerprint_text(cert@)
            && fingerprint@.len() == 71 && cert@.len() > 0,
        r matches Err(e) ==> (exists|detail: Seq<char>| e@ == "key generation: "@ + detail
            || e@ == "cert generation: "@ + detail),
{
    let key_pair = match generate_key_pair() {
        Ok(k) => k,
        Err(e) => {
            let detail = rcgen_error_text(&e);
            let msg = concat_text("key generation: ", detail.as_str());
            assert(msg@ == "key generation: "@ + detail@);
            return Err(msg);
        },
    };
    let subject = ephemeral_subject();
    let (cert_der, key_der) = match self_signed_der(&key_pair, &subject) {
        Ok(c) => c,
        Err(e) => {
            let detail = rcgen_error_text(&e);
            let msg = concat_text("cert generation: ", detail.as_str());
            assert(msg@ == "cert generation: "@ + detail@);
            return Err(msg);
        },
    };
    let fingerprint = certificate_fingerprint(cert_der.as_slice());
    Ok((cert_der, key_der, fingerprint))
}

} // verus!
