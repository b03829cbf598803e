//! The key and the certificate with which the proxy presents itself to a client.
use crate::certificate::{
    build, cert_to_der, generate_rsa, key_to_der, pkey_from_rsa, set_not_after, set_not_before,
    set_pubkey, sign, x509_builder, CertificateStep, Draft, EncodedCertificate,
    EncodedCertificateView, EncodedKey, EncodedKeyView, Key, KeyView, SignedHash,
};
use openssl::error::ErrorStack;
use openssl::hash::MessageDigest;
use openssl::x509::X509;
use vstd::prelude::*;

verus! {

/// How many bits the key has.
pub const KEY_BITS: u32 = 2048;

/// In how many days from now the certificate becomes valid.
pub const FIRST_DAY: u32 = 0;

/// In how many days from now the certificate runs out.
pub const LAST_DAY: u32 = 1;

/// The SHA-256 digest that `openssl::x509::X509Ref::digest` gives of the certificate in some
/// bytes; nothing where the bytes hold no certificate.
pub uninterp spec fn certificate_digest(der: Seq<u8>) -> Option<Seq<u8>>;

/// The bytes of a digest, if there is one.
pub open spec fn digest_view(digest: Result<Vec<u8>, ErrorStack>) -> Option<Seq<u8>> {
    match digest {
        Ok(bytes) => Some(bytes@),
        Err(_) => None,
    }
}

/// Calls `openssl::x509::X509Ref::digest` with SHA-256 on the certificate that
/// `openssl::x509::X509::from_der` reads from the bytes. The digest depends on the bytes alone.
#[verifier::external_body]
pub(crate) fn sha256_of_certificate(der: &[u8]) -> (digest: Result<Vec<u8>, ErrorStack>)
    ensures
        digest_view(digest) == certificate_digest(der@),
{
    X509::from_der(der)?.digest(MessageDigest::sha256()).map(|digest| digest.to_vec())
}

/// Appends a character: `std::string::String::push`.
pub assume_specification[ String::push ](text: &mut String, c: char)
    ensures
        final(text)@ == old(text)@.push(c),
;

/// Making a certificate failed.
pub struct CertificateError {
    pub cause: ErrorStack,
}

/// A key and a certificate for it, both encoded, and the certificate's digest.
pub struct Identity {
    key: EncodedKey,
    cert: EncodedCertificate,
    digest: Vec<u8>,
}

pub struct IdentityView {
    pub key: EncodedKeyView,
    pub cert: EncodedCertificateView,
    pub digest: Seq<u8>,
}

impl View for Identity {
    type V = IdentityView;

    closed spec fn view(&self) -> IdentityView {
        IdentityView { key: self.key@, cert: self.cert@, digest: self.digest@ }
    }
}

impl IdentityView {
    /// The digest is that of the certificate.
    pub open spec fn valid(self) -> bool {
        certificate_digest(self.cert.der) == Some(self.digest)
    }

    /// The key has the size that it should have, and the certificate was made for it.
    pub open spec fn made_well(self) -> bool {
        made_well(self.key, self.cert)
    }
}

/// What is done to make a certificate: it is valid from now on for a day, carries the key and is
/// signed by it with SHA-256.
pub open spec fn certificate_steps(key: KeyView) -> Seq<CertificateStep> {
    seq![
        CertificateStep::NotAfter(LAST_DAY),
        CertificateStep::NotBefore(FIRST_DAY),
        CertificateStep::PublicKey(key),
        CertificateStep::Signature(key, SignedHash::Sha256),
    ]
}

/// Whether a key has the size that it should have, and a certificate was made for that key.
pub open spec fn made_well(key: EncodedKeyView, cert: EncodedCertificateView) -> bool {
    key.key.bits == KEY_BITS && cert.steps == certificate_steps(key.key)
}

/// Makes a certificate for a key, up to its last step.
fn draft_certificate(key: &Key) -> (drafted: Result<Draft, ErrorStack>)
    ensures
        drafted matches Ok(draft) ==> draft@ == certificate_steps(key@),
{
    let mut draft = x509_builder()?;
    set_not_after(&mut draft, LAST_DAY)?;
    set_not_before(&mut draft, FIRST_DAY)?;
    set_pubkey(&mut draft, key)?;
    sign(&mut draft, key, SignedHash::Sha256)?;
    assert(draft@ =~= certificate_steps(key@));
    Ok(draft)
}

/// Makes a fresh key and a certificate for it that is valid from now on for a day, and encodes
/// both.
pub fn make_certificate() -> (made: Result<(EncodedKey, EncodedCertificate), ErrorStack>)
    ensures
        made matches Ok((key, cert)) ==> made_well(key@, cert@),
{
    let key = pkey_from_rsa(generate_rsa(KEY_BITS)?)?;
    let cert = build(draft_certificate(&key)?);
    Ok((key_to_der(&key)?, cert_to_der(&cert)?))
}

impl Identity {
    #[verifier::type_invariant]
    spec fn digest_matches(self) -> bool {
        certificate_digest(self.cert@.der) == Some(self.digest@)
    }

    /// Makes an identity of a fresh key. Whether one can be made rests with `openssl`;
    /// [`Identity::from_made`] says what becomes of either outcome.
    pub fn generate() -> (identity: Result<Identity, CertificateError>)
        ensures
            identity matches Ok(i) ==> i@.valid() && i@.made_well(),
    {
        Identity::from_made(make_certificate())
    }

    /// Makes an identity of a key and a certificate that were made, or passes on the reason why
    /// they were not made. It fails, too, if the certificate cannot be read.
    pub fn from_made(made: Result<(EncodedKey, EncodedCertificate), ErrorStack>) -> (identity:
        Result<Identity, CertificateError>)
        ensures
            match made {
                Ok((key, cert)) => {
                    &&& identity is Ok <==> certificate_digest(cert@.der) is Some
                    &&& identity matches Ok(i) ==> i@.valid() && i@.key == key@ && i@.cert == cert@
                },
                Err(cause) => identity is Err && identity->Err_0.cause == cause,
            },
    {
        match made {
            Ok((key, cert)) => match sha256_of_certificate(cert.der()) {
                Ok(digest) => Ok(Identity { key, cert, digest }),
                Err(cause) => Err(CertificateError { cause }),
            },
            Err(cause) => Err(CertificateError { cause }),
        }
    }

    /// The encoded key.
    pub fn key(&self) -> (der: &[u8])
        ensures
            der@ == self@.key.der,
    {
        self.key.der()
    }

    /// The encoded certificate.
    pub fn cert(&self) -> (der: &[u8])
        ensures
            der@ == self@.cert.der,
    {
        self.cert.der()
    }

    /// The fingerprint of the certificate, as the client is told it.
    pub fn fingerprint(&self) -> (text: String)
        ensures
            text@ == fingerprint_text(self@.digest),
            self@.valid(),
    {
        proof {
            use_type_invariant(self);
        }
        format_fingerprint(self.digest.as_slice())
    }
}

/// The hexadecimal digit for a number under sixteen, in upper case.
pub open spec fn hex_digit(n: int) -> char {
    "0123456789ABCDEF"@[n]
}

/// A digest as text: two upper case hexadecimal digits for each byte, with a colon between the
/// bytes.
pub open spec fn fingerprint_text(digest: Seq<u8>) -> Seq<char> {
    Seq::new(
        if digest.len() == 0 {
            0
        } else {
            (3 * digest.len() - 1) as nat
        },
        |i: int|
            if i % 3 == 0 {
                hex_digit(digest[i / 3] as int / 16)
            } else if i % 3 == 1 {
                hex_digit(digest[i / 3] as int % 16)
            } else {
                ':'
            },
    )
}

/// The hexadecimal digit for `n`.
fn to_hex_digit(n: u8) -> (digit: char)
    requires
        n < 16,
    ensures
        digit == hex_digit(n as int),
{
    proof {
        reveal_strlit("0123456789ABCDEF");
    }
    if n < 10 {
        (48 + n) as char
    } else {
        (55 + n) as char
    }
}

/// Writes a digest as two upper case hexadecimal digits for each byte, with colons in between.
pub fn format_fingerprint(digest: &[u8]) -> (text: String)
    ensures
        text@ == fingerprint_text(digest@),
{
    let mut text = String::new();
    let mut i: usize = 0;
    while i < digest.len()
        invariant
            i <= digest@.len(),
            text@ == fingerprint_text(digest@.take(i as int)),
        decreases digest@.len() - i,
    {
        if i > 0 {
            text.push(':');
        }
        text.push(to_hex_digit(digest[i] / 16));
        text.push(to_hex_digit(digest[i] % 16));
        i = i + 1;
        assert(text@ =~= fingerprint_text(digest@.take(i as int)));
    }
    assert(digest@.take(i as int) =~= digest@);
    text
}

/// A fingerprint tells the digest: different digests have different fingerprints.
pub proof fn law_fingerprint_tells_digest(a: Seq<u8>, b: Seq<u8>)
    requires
        fingerprint_text(a) == fingerprint_text(b),
    ensures
        a == b,
{
    reveal_strlit("0123456789ABCDEF");
    assert(a.len() > 0 ==> fingerprint_text(a).len() == 3 * a.len() - 1);
    assert(b.len() > 0 ==> fingerprint_text(b).len() == 3 * b.len() - 1);
    assert(a.len() == 0 ==> fingerprint_text(a).len() == 0);
    assert(b.len() == 0 ==> fingerprint_text(b).len() == 0);
    assert(a.len() == b.len());
    assert forall|i: int| 0 <= i < a.len() implies a[i] == b[i] by {
        let (x, y) = (a[i] as int, b[i] as int);
        assert(fingerprint_text(a)[3 * i] == hex_digit(x / 16));
        assert(fingerprint_text(b)[3 * i] == hex_digit(y / 16));
        assert(fingerprint_text(a)[3 * i + 1] == hex_digit(x % 16));
        assert(fingerprint_text(b)[3 * i + 1] == hex_digit(y % 16));
    }
    assert(a =~= b);
}

/// A key and a certificate that were made well are a key of 2048 bits and a certificate that was
/// given its end in one day and its start now, carries that key, and was signed with that key and
/// SHA-256, in this order and with nothing else done to it.
pub proof fn law_certificate_is_for_its_key(key: EncodedKeyView, cert: EncodedCertificateView)
    requires
        made_well(key, cert),
    ensures
        key.key.bits == 2048,
        cert.steps.len() == 4,
        cert.steps[0] == CertificateStep::NotAfter(1),
        cert.steps[1] == CertificateStep::NotBefore(0),
        cert.steps[2] == CertificateStep::PublicKey(key.key),
        cert.steps[3] == CertificateStep::Signature(key.key, SignedHash::Sha256),
{
}

/// The number of the character for a hexadecimal digit, in upper case.
pub open spec fn hex_code(n: int) -> int {
    if n < 10 {
        48 + n
    } else {
        55 + n
    }
}

/// A fingerprint shows each byte of the digest, in order, as two upper case hexadecimal digits,
/// the higher one first, with a colon between the bytes and nothing else.
pub proof fn law_fingerprint_shows_digest(digest: Seq<u8>)
    ensures
        ({
            let text = fingerprint_text(digest);
            &&& text.len() == if digest.len() == 0 {
                0
            } else {
                3 * digest.len() - 1
            }
            &&& forall|i: int|
                #![trigger digest[i]]
                0 <= i < digest.len() ==> {
                    &&& text[3 * i] as int == hex_code(digest[i] as int / 16)
                    &&& text[3 * i + 1] as int == hex_code(digest[i] as int % 16)
                    &&& i + 1 < digest.len() ==> text[3 * i + 2] == ':'
                }
        }),
{
    reveal_strlit("0123456789ABCDEF");
    let text = fingerprint_text(digest);
    assert forall|i: int|
        #![trigger digest[i]]
        0 <= i < digest.len() implies {
        &&& text[3 * i] as int == hex_code(digest[i] as int / 16)
        &&& text[3 * i + 1] as int == hex_code(digest[i] as int % 16)
        &&& i + 1 < digest.len() ==> text[3 * i + 2] == ':'
    } by {
        assert(text[3 * i] == hex_digit(digest[i] as int / 16));
        assert(text[3 * i + 1] == hex_digit(digest[i] as int % 16));
    }
}

/// An identity that is valid and made well holds the digest of its own certificate, and its
/// certificate was made for its own key of 2048 bits, to be valid from now on for a day.
pub proof fn law_identity_is_sound(identity: IdentityView)
    requires
        identity.valid(),
        identity.made_well(),
    ensures
        certificate_digest(identity.cert.der) == Some(identity.digest),
        identity.key.key.bits == 2048,
        identity.cert.steps =~= seq![
            CertificateStep::NotAfter(1),
            CertificateStep::NotBefore(0),
            CertificateStep::PublicKey(identity.key.key),
            CertificateStep::Signature(identity.key.key, SignedHash::Sha256),
        ],
{
}

} // verus!
