//! The TLS side of the QUIC tunnel: the host's self-signed certificate and
//! the client's certificate check, which accepts any certificate.
use vstd::prelude::*;

verus! {

#[verifier::external_type_specification]
#[verifier::external_body]
pub struct ExRcgenError(rcgen::Error);

/// Wraps `rcgen::generate_simple_self_signed`: a fresh key pair and a
/// certificate for the given subject alternative names, both as DER. The key
/// is random, so nothing is promised of the bytes.
#[verifier::external_body]
fn self_signed_der(names: Vec<String>) -> (r: Result<(Vec<u8>, Vec<u8>), rcgen::Error>) {
    match rcgen::generate_simple_self_signed(names) {
        Ok(c) => Ok((c.cert.der().to_vec(), c.key_pair.serialize_der())),
        Err(e) => Err(e),
    }
}

/// Wraps `<rcgen::Error as ToString>::to_string`: the error's message.
#[verifier::external_body]
fn rcgen_error_message(e: &rcgen::Error) -> (msg: String) {
    e.to_string()
}

/// A certificate chain and its private key, as DER.
pub struct SelfSignedCert {
    pub cert_chain: Vec<Vec<u8>>,
    pub key_der: Vec<u8>,
}

/// The certificate a generator's outcome gives: on success a chain of that
/// one certificate with its key; on failure the generator's error message.
pub fn certificate_from(generated: Result<(Vec<u8>, Vec<u8>), rcgen::Error>) -> (r: Result<
    SelfSignedCert,
    String,
>)
    ensures
        generated is Ok <==> r is Ok,
        generated matches Ok((cert, key)) ==> (r matches Ok(c) && c.cert_chain@ == seq![cert]
            && c.key_der == key),
{
    match generated {
        Ok((cert, key)) => {
            let ghost (c0, k0) = (cert, key);
            let mut chain: Vec<Vec<u8>> = Vec::new();
            chain.push(cert);
            assert(chain@ =~= seq![c0]);
            Ok(SelfSignedCert { cert_chain: chain, key_der: key })
        },
        Err(e) => Err(rcgen_error_message(&e)),
    }
}

/// A self-signed certificate for `localhost`, for the host's QUIC endpoint.
/// Whether generation succeeds is up to the generator (it draws a random key);
/// what each outcome gives is [`certificate_from`]: the chain holds the one
/// certificate, an error carries the generator's message.
pub fn generate_cert() -> (r: Result<SelfSignedCert, String>)
    ensures
        r matches Ok(c) ==> c.cert_chain@.len() == 1,
{
    certificate_from(self_signed_der(certificate_names()))
}

/// The names the host's certificate is made for: `localhost` alone.
pub fn certificate_names() -> (names: Vec<String>)
    ensures
        names@.len() == 1,
        names@[0]@ == "localhost"@,
{
    let mut names: Vec<String> = Vec::new();
    names.push(String::from_str("localhost"));
    names
}

/// Signature schemes a certificate check can offer.
#[derive(Clone, Copy, Debug, PartialEq, Eq)]
pub enum VerifyScheme {
    RsaPssSha256,
    EcdsaNistp256Sha256,
    Ed25519,
    RsaPssSha384,
    RsaPssSha512,
}

/// The client's certificate check, as far as the library holds it: the
/// signature schemes it offers. The check accepts any certificate (peers use
/// throwaway self-signed ones); that acceptance is the implementation of
/// rustls's verifier trait in the application.
#[derive(Debug)]
pub struct DummyCertificateVerifier;

impl DummyCertificateVerifier {
    /// The schemes the check offers, in order of preference.
    pub fn supported_verify_schemes(&self) -> (schemes: Vec<VerifyScheme>)
        ensures
            schemes@ == seq![
                VerifyScheme::RsaPssSha256,
                VerifyScheme::EcdsaNistp256Sha256,
                VerifyScheme::Ed25519,
                VerifyScheme::RsaPssSha384,
                VerifyScheme::RsaPssSha512,
            ],
    {
        let mut v: Vec<VerifyScheme> = Vec::new();
        v.push(VerifyScheme::RsaPssSha256);
        v.push(VerifyScheme::EcdsaNistp256Sha256);
        v.push(VerifyScheme::Ed25519);
        v.push(VerifyScheme::RsaPssSha384);
        v.push(VerifyScheme::RsaPssSha512);
        assert(v@ =~= seq![
            VerifyScheme::RsaPssSha256,
            VerifyScheme::EcdsaNistp256Sha256,
            VerifyScheme::Ed25519,
            VerifyScheme::RsaPssSha384,
            VerifyScheme::RsaPssSha512,
        ]);
        v
    }
}

} // verus!
