//! The key and the certificate.
use mumble_web_proxy::config::Config;
use mumble_web_proxy::connection::Connection;
use mumble_web_proxy::identity::{
    format_fingerprint, make_certificate, CertificateError, Identity,
};
use openssl::error::ErrorStack;
use openssl::hash::MessageDigest;
use openssl::pkey::PKey;
use openssl::x509::X509;

fn fresh() -> Identity {
    Identity::generate().ok().expect("an identity")
}

#[test]
fn fingerprint_is_upper_case_with_colons() {
    assert_eq!(format_fingerprint(&[0x00, 0xff, 0x1a]), "00:FF:1A");
    assert_eq!(format_fingerprint(&[0x9b]), "9B");
    assert_eq!(format_fingerprint(&[]), "");
}

#[test]
fn fingerprints_of_different_digests_differ() {
    assert_ne!(format_fingerprint(&[1, 2]), format_fingerprint(&[1, 3]));
    assert_ne!(format_fingerprint(&[1, 2]), format_fingerprint(&[1]));
}

#[test]
fn fingerprint_is_that_of_the_certificate() {
    let identity = fresh();
    let cert = X509::from_der(identity.cert()).unwrap();
    let digest = cert.digest(MessageDigest::sha256()).unwrap();
    let expected = digest
        .iter()
        .map(|byte| format!("{:02X}", byte))
        .collect::<Vec<_>>()
        .join(":");
    assert_eq!(identity.fingerprint(), expected);
    assert_eq!(identity.fingerprint().len(), 95);
}

#[test]
fn certificate_is_signed_by_its_key_for_a_day() {
    let identity = fresh();
    let key = PKey::private_key_from_der(identity.key()).unwrap();
    let cert = X509::from_der(identity.cert()).unwrap();
    assert_eq!(key.bits(), 2048);
    assert!(cert.public_key().unwrap().public_eq(&key));
    assert!(cert.verify(&key).unwrap());
    let algorithm = cert.signature_algorithm().object().nid();
    assert_eq!(algorithm, openssl::nid::Nid::SHA256WITHRSAENCRYPTION);
    let validity = cert.not_before().diff(cert.not_after()).unwrap();
    assert_eq!(validity.days * 86400 + validity.secs, 86400);
}

#[test]
fn identities_differ() {
    assert_ne!(fresh().fingerprint(), fresh().fingerprint());
}

fn failure() -> ErrorStack {
    X509::from_der(&[2, 3]).err().expect("an error")
}

#[test]
fn what_was_made_becomes_an_identity() {
    let (key, cert) = make_certificate().ok().expect("a certificate");
    let (key_der, cert_der) = (key.der().to_vec(), cert.der().to_vec());
    let identity = Identity::from_made(Ok((key, cert)))
        .ok()
        .expect("an identity");
    assert_eq!(identity.key(), key_der);
    assert_eq!(identity.cert(), cert_der);
    let digest = X509::from_der(&cert_der)
        .unwrap()
        .digest(MessageDigest::sha256())
        .unwrap();
    assert_eq!(identity.fingerprint(), format_fingerprint(&digest));
}

#[test]
fn reason_for_a_missing_certificate_is_passed_on() {
    let error = Identity::from_made(Err(failure())).err().expect("an error");
    assert_eq!(error.cause.to_string(), failure().to_string());
}

#[test]
fn connection_is_made_exactly_with_an_identity() {
    let config = Config {
        min_port: 1,
        max_port: 65535,
        public_v4: None,
        public_v6: None,
    };
    let identity = fresh();
    let fingerprint = identity.fingerprint();
    let connection: Connection<()> = Connection::from_made(config, Ok(identity))
        .ok()
        .expect("a connection");
    assert_eq!(connection.identity().fingerprint(), fingerprint);
    let refused: Result<Connection<()>, CertificateError> =
        Connection::from_made(config, Err(CertificateError { cause: failure() }));
    assert_eq!(
        refused.err().expect("an error").cause.to_string(),
        failure().to_string()
    );
}
