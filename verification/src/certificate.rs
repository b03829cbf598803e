//! A key and a certificate in the making.
//!
//! What `openssl` holds of them is closed to view, and depends on chance and on the clock. So each
//! of them comes with a record of the calls that made it. The calls stand in this module, and
//! nothing outside of it can write such a record.
use openssl::asn1::Asn1Time;
use openssl::error::ErrorStack;
use openssl::hash::MessageDigest;
use openssl::pkey::{PKey, Private};
use openssl::rsa::Rsa;
use openssl::x509::{X509Builder, X509};
use vstd::prelude::*;

verus! {

/// `openssl`'s account of a failure.
#[verifier::external_type_specification]
#[verifier::external_body]
pub struct ExErrorStack(ErrorStack);

/// `openssl`'s mark of a key that holds its private part.
#[verifier::external_type_specification]
#[verifier::external_body]
pub struct ExPrivate(Private);

/// `openssl`'s RSA keys.
#[verifier::external_type_specification]
#[verifier::external_body]
#[verifier::reject_recursive_types(T)]
pub struct ExRsa<T>(Rsa<T>);

/// `openssl`'s keys of any algorithm.
#[verifier::external_type_specification]
#[verifier::external_body]
#[verifier::reject_recursive_types(T)]
pub struct ExPKey<T>(PKey<T>);

/// `openssl`'s certificates in the making.
#[verifier::external_type_specification]
#[verifier::external_body]
pub struct ExX509Builder(X509Builder);

/// `openssl`'s certificates.
#[verifier::external_type_specification]
#[verifier::external_body]
pub struct ExX509(X509);

/// The most days that can be counted from now: their seconds fit in 32 bits with a sign.
pub const MAX_DAYS: u32 = 24855;

/// The hash that is signed.
#[derive(Debug, Clone, Copy, PartialEq, Eq)]
pub enum SignedHash {
    Sha256,
}

/// A key: what `openssl` holds of it, and the number of bits with which it was generated.
pub struct KeyView {
    pub pkey: PKey<Private>,
    pub bits: u32,
}

/// One thing that was done to a certificate.
pub enum CertificateStep {
    /// It was given the time this many days after the step as the end of its validity.
    NotAfter(u32),
    /// It was given the time this many days after the step as the start of its validity.
    NotBefore(u32),
    /// It was given the public part of this key.
    PublicKey(KeyView),
    /// It was signed with this key.
    Signature(KeyView, SignedHash),
}

/// An RSA key.
pub struct RsaKey {
    rsa: Rsa<Private>,
    bits: Ghost<u32>,
}

impl RsaKey {
    /// The number of bits with which the key was generated.
    pub closed spec fn bits(self) -> u32 {
        self.bits@
    }
}

/// A key.
pub struct Key {
    pkey: PKey<Private>,
    bits: Ghost<u32>,
}

impl View for Key {
    type V = KeyView;

    closed spec fn view(&self) -> KeyView {
        KeyView { pkey: self.pkey, bits: self.bits@ }
    }
}

/// A certificate in the making.
pub struct Draft {
    builder: X509Builder,
    steps: Ghost<Seq<CertificateStep>>,
}

impl View for Draft {
    type V = Seq<CertificateStep>;

    /// What was done to the certificate so far.
    closed spec fn view(&self) -> Seq<CertificateStep> {
        self.steps@
    }
}

/// A certificate.
pub struct Certificate {
    x509: X509,
    steps: Ghost<Seq<CertificateStep>>,
}

impl View for Certificate {
    type V = Seq<CertificateStep>;

    /// What was done to make the certificate.
    closed spec fn view(&self) -> Seq<CertificateStep> {
        self.steps@
    }
}

/// The encoding of a key.
pub struct EncodedKey {
    der: Vec<u8>,
    key: Ghost<KeyView>,
}

/// The bytes of an encoding, and the key that was encoded.
pub struct EncodedKeyView {
    pub der: Seq<u8>,
    pub key: KeyView,
}

impl View for EncodedKey {
    type V = EncodedKeyView;

    closed spec fn view(&self) -> EncodedKeyView {
        EncodedKeyView { der: self.der@, key: self.key@ }
    }
}

/// The encoding of a certificate.
pub struct EncodedCertificate {
    der: Vec<u8>,
    steps: Ghost<Seq<CertificateStep>>,
}

/// The bytes of an encoding, and what was done to make the certificate that was encoded.
pub struct EncodedCertificateView {
    pub der: Seq<u8>,
    pub steps: Seq<CertificateStep>,
}

impl View for EncodedCertificate {
    type V = EncodedCertificateView;

    closed spec fn view(&self) -> EncodedCertificateView {
        EncodedCertificateView { der: self.der@, steps: self.steps@ }
    }
}

impl EncodedKey {
    /// The bytes of the encoding.
    pub fn der(&self) -> (der: &[u8])
        ensures
            der@ == self@.der,
    {
        self.der.as_slice()
    }
}

impl EncodedCertificate {
    /// The bytes of the encoding.
    pub fn der(&self) -> (der: &[u8])
        ensures
            der@ == self@.der,
    {
        self.der.as_slice()
    }
}

/// Calls `openssl::rsa::Rsa::generate`, which makes a random key of the given size.
#[verifier::external_body]
pub(crate) fn generate_rsa(bits: u32) -> (rsa: Result<RsaKey, ErrorStack>)
    ensures
        rsa is Ok ==> rsa->Ok_0.bits() == bits,
{
    Ok(RsaKey { rsa: Rsa::generate(bits)?, bits: Ghost(bits) })
}

/// Calls `openssl::pkey::PKey::from_rsa`, which holds the same key in another type.
#[verifier::external_body]
pub(crate) fn pkey_from_rsa(rsa: RsaKey) -> (key: Result<Key, ErrorStack>)
    ensures
        key is Ok ==> key->Ok_0@.bits == rsa.bits(),
{
    Ok(Key { pkey: PKey::from_rsa(rsa.rsa)?, bits: rsa.bits })
}

/// Calls `openssl::x509::X509::builder`, which begins a certificate to which nothing was done.
#[verifier::external_body]
pub(crate) fn x509_builder() -> (draft: Result<Draft, ErrorStack>)
    ensures
        draft is Ok ==> draft->Ok_0@ == Seq::<CertificateStep>::empty(),
{
    Ok(Draft { builder: X509::builder()?, steps: Ghost(Seq::empty()) })
}

/// Calls `openssl::x509::X509Builder::set_not_after` with the time that
/// `openssl::asn1::Asn1Time::days_from_now` gives. Where it succeeds, the step was taken with
/// this number of days. Which time that is depends on the clock.
#[verifier::external_body]
pub(crate) fn set_not_after(draft: &mut Draft, days: u32) -> (result: Result<(), ErrorStack>)
    requires
        days <= MAX_DAYS,
    ensures
        result is Ok ==> final(draft)@ == old(draft)@.push(CertificateStep::NotAfter(days)),
{
    draft.builder.set_not_after(&*Asn1Time::days_from_now(days)?)
}

/// Calls `openssl::x509::X509Builder::set_not_before` with the time that
/// `openssl::asn1::Asn1Time::days_from_now` gives. Where it succeeds, the step was taken with
/// this number of days. Which time that is depends on the clock.
#[verifier::external_body]
pub(crate) fn set_not_before(draft: &mut Draft, days: u32) -> (result: Result<(), ErrorStack>)
    requires
        days <= MAX_DAYS,
    ensures
        result is Ok ==> final(draft)@ == old(draft)@.push(CertificateStep::NotBefore(days)),
{
    draft.builder.set_not_before(&*Asn1Time::days_from_now(days)?)
}

/// Calls `openssl::x509::X509Builder::set_pubkey`. Where it succeeds, the step was taken with
/// this key.
#[verifier::external_body]
pub(crate) fn set_pubkey(draft: &mut Draft, key: &Key) -> (result: Result<(), ErrorStack>)
    ensures
        result is Ok ==> final(draft)@ == old(draft)@.push(CertificateStep::PublicKey(key@)),
{
    draft.builder.set_pubkey(&key.pkey)
}

/// Calls `openssl::x509::X509Builder::sign`. Where it succeeds, the step was taken with this key
/// and this hash.
#[verifier::external_body]
pub(crate) fn sign(draft: &mut Draft, key: &Key, hash: SignedHash) -> (result: Result<
    (),
    ErrorStack,
>)
    ensures
        result is Ok ==> final(draft)@ == old(draft)@.push(CertificateStep::Signature(key@, hash)),
{
    let algorithm = match hash {
        SignedHash::Sha256 => MessageDigest::sha256(),
    };
    draft.builder.sign(&key.pkey, algorithm)
}

/// Calls `openssl::x509::X509Builder::build`, which hands out the certificate as it is.
#[verifier::external_body]
pub(crate) fn build(draft: Draft) -> (cert: Certificate)
    ensures
        cert@ == draft@,
{
    Certificate { x509: draft.builder.build(), steps: draft.steps }
}

/// Calls `openssl::x509::X509Ref::to_der`. Where it succeeds, the bytes are its encoding of this
/// certificate. Whether they can be read again is left unsaid.
#[verifier::external_body]
pub(crate) fn cert_to_der(cert: &Certificate) -> (encoded: Result<EncodedCertificate, ErrorStack>)
    ensures
        encoded is Ok ==> encoded->Ok_0@.steps == cert@,
{
    Ok(EncodedCertificate { der: cert.x509.to_der()?, steps: Ghost(cert@) })
}

/// Calls `openssl::pkey::PKeyRef::private_key_to_der`. Where it succeeds, the bytes are its
/// encoding of this key. Whether they can be read again is left unsaid.
#[verifier::external_body]
pub(crate) fn key_to_der(key: &Key) -> (encoded: Result<EncodedKey, ErrorStack>)
    ensures
        encoded is Ok ==> encoded->Ok_0@.key == key@,
{
    Ok(EncodedKey { der: key.pkey.private_key_to_der()?, key: Ghost(key@) })
}

} // verus!
