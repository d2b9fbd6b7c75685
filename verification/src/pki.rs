//! The host's certificate authority and each device's identity (id, key pair,
//! and the certificate the host issued to it).
use vstd::prelude::*;
use rcgen::{
    BasicConstraints, Certificate, CertificateParams, CertificateSigningRequestParams,
    DistinguishedName, DnType, IsCa, KeyPair, PublicKeyData, PKCS_ECDSA_P256_SHA256,
};
use crate::crypto::{hex_encode, hex_text};
use crate::scan::{chars_of, trim, trim_bounds};
use crate::text::{concat_str, push_char};

verus! {

#[verifier::external_type_specification]
#[verifier::external_body]
pub struct ExKeyPair(KeyPair);

#[verifier::external_type_specification]
#[verifier::external_body]
pub struct ExCertificate(Certificate);

#[verifier::external_type_specification]
#[verifier::external_body]
pub struct ExRcgenError(rcgen::Error);

/// Why a certificate operation failed.
#[derive(Debug, Clone, Copy, PartialEq, Eq, Structural)]
pub enum PkiError {
    /// The certificate library refused (bad PEM, unsupported key, signing failure).
    Certificate,
}

/// What `rustls_pemfile::certs` reads from a PEM text: for each certificate
/// entry, its DER bytes, or `None` where reading failed.
pub uninterp spec fn pem_certificate_items(pem: Seq<char>) -> Seq<Option<Seq<u8>>>;

/// What `rustls_pemfile::csr` reads from a PEM text: the DER bytes of the first
/// certificate request, `None` when there is none or reading fails.
pub uninterp spec fn pem_first_csr(pem: Seq<char>) -> Option<Seq<u8>>;

/// The subject public key bytes that `CertificateSigningRequestParams::from_pem`
/// reads from a PEM certificate request; `None` when it refuses the text.
pub uninterp spec fn request_public_key(pem: Seq<char>) -> Option<Seq<u8>>;

/// `k` occurs in `d` as a run of consecutive bytes.
pub open spec fn holds_bytes(d: Seq<u8>, k: Seq<u8>) -> bool {
    exists|i: int| 0 <= i && i + k.len() <= d.len() && #[trigger] d.subrange(i, i + k.len()) == k
}

/// The first present item of `items`.
pub open spec fn first_present(items: Seq<Option<Seq<u8>>>) -> Option<Seq<u8>>
    decreases items.len(),
{
    if items.len() == 0 {
        None
    } else if items[0] is Some {
        items[0]
    } else {
        first_present(items.drop_first())
    }
}

/// The DER bytes of the first certificate in a PEM text that reads without
/// error, empty when there is none.
pub open spec fn pem_first_certificate(pem: Seq<char>) -> Seq<u8> {
    match first_present(pem_certificate_items(pem)) {
        Some(d) => d,
        None => Seq::empty(),
    }
}

/// Calls `KeyPair::generate_for(&PKCS_ECDSA_P256_SHA256)`: a fresh random
/// ECDSA P-256 key pair. Nothing is claimed of it.
#[verifier::external_body]
fn generate_key_pair() -> (r: Result<KeyPair, rcgen::Error>) {
    KeyPair::generate_for(&PKCS_ECDSA_P256_SHA256)
}

/// Calls `CertificateParams::self_signed` with `key`, on parameters whose
/// distinguished name is `common_name` and whose other fields are the defaults.
/// The signature is randomised, so nothing is claimed of the certificate.
#[verifier::external_body]
fn self_signed(key: &KeyPair, common_name: &str) -> (r: Result<Certificate, rcgen::Error>) {
    let mut params = CertificateParams::default();
    let mut dn = DistinguishedName::new();
    dn.push(DnType::CommonName, common_name);
    params.distinguished_name = dn;
    params.self_signed(key)
}

/// Calls `CertificateParams::self_signed` with `key`, on parameters for an
/// unconstrained CA whose distinguished name is `common_name` and
/// `organization`, valid from `from` to `to` (year, month, day), each made with
/// `rcgen::date_time_ymd`, which panics on a day its calendar does not hold; the
/// dates are written as ASN.1 times, which panic outside the years 0 to 9999.
/// The signature is randomised, so nothing is claimed of the certificate.
#[verifier::external_body]
fn self_signed_ca(key: &KeyPair, common_name: &str, organization: &str, from: (i32, u8, u8), to: (i32, u8, u8)) -> (r: Result<Certificate, rcgen::Error>)
    requires
        0 <= from.0 <= 9999,
        1 <= from.1 <= 12,
        1 <= from.2 <= 28,
        0 <= to.0 <= 9999,
        1 <= to.1 <= 12,
        1 <= to.2 <= 28,
{
    let mut params = CertificateParams::default();
    params.is_ca = IsCa::Ca(BasicConstraints::Unconstrained);
    let mut dn = DistinguishedName::new();
    dn.push(DnType::CommonName, common_name);
    dn.push(DnType::OrganizationName, organization);
    params.distinguished_name = dn;
    params.not_before = rcgen::date_time_ymd(from.0, from.1, from.2);
    params.not_after = rcgen::date_time_ymd(to.0, to.1, to.2);
    params.self_signed(key)
}

/// Calls `CertificateParams::from_ca_cert_pem` on `cert_pem` and signs the
/// parameters it reads with `key` (`self_signed`). Nothing is claimed of the result.
#[verifier::external_body]
fn rebuild_ca(cert_pem: &str, key: &KeyPair) -> (r: Result<Certificate, rcgen::Error>) {
    CertificateParams::from_ca_cert_pem(cert_pem)?.self_signed(key)
}

/// Calls `CertificateSigningRequestParams::from_pem` on `csr_pem`, keeps the
/// request's public key bytes (`PublicKeyData::der_bytes`), and signs the request
/// with `signed_by(ca, ca_key)`; hands back the DER bytes of the certificate and
/// the key bytes. When `from_pem` refuses the text it fails. The certificate
/// carries the request's key: `signed_by` writes it into the subject public key
/// info as a bit string of those very bytes. The signature is randomised, so the
/// rest of the certificate is left unsaid.
#[verifier::external_body]
fn sign_request(csr_pem: &str, ca: &Certificate, ca_key: &KeyPair) -> (r: Result<(Vec<u8>, Vec<u8>), rcgen::Error>)
    ensures
        request_public_key(csr_pem@) is None ==> r is Err,
        r matches Ok((d, k)) ==> request_public_key(csr_pem@) == Some(k@) && holds_bytes(d@, k@),
{
    let request = CertificateSigningRequestParams::from_pem(csr_pem)?;
    let key = request.public_key.der_bytes().to_vec();
    let cert = request.signed_by(ca, ca_key)?;
    Ok((cert.der().to_vec(), key))
}

/// Calls `CertificateParams::serialize_request` with `key`, on parameters whose
/// distinguished name is `common_name`, and `pem` on the request. `pem` writes the
/// request's DER bytes as one "CERTIFICATE REQUEST" section, which is what
/// `rustls_pemfile::csr` reads back, so the text holds a request that reads; and
/// `CertificateSigningRequestParams::from_pem` reads it back too (a P-256 request
/// with a distinguished name and no extensions, whose signature checks), with
/// the key's public bytes. The request is signed afresh on each call (the signature is randomised), so its
/// bytes are left unsaid.
#[verifier::external_body]
fn request_pem(key: &KeyPair, common_name: &str) -> (r: Result<String, rcgen::Error>)
    ensures
        r matches Ok(p) ==> pem_first_csr(p@) is Some && request_public_key(p@) is Some,
{
    let mut params = CertificateParams::default();
    let mut dn = DistinguishedName::new();
    dn.push(DnType::CommonName, common_name);
    params.distinguished_name = dn;
    params.serialize_request(key)?.pem()
}

/// Calls `Certificate::der`. The bytes are those of a certificate whose
/// signature was randomised when it was made, so they are left unsaid.
#[verifier::external_body]
fn certificate_der(cert: &Certificate) -> (r: Vec<u8>) {
    cert.der().to_vec()
}

/// Calls `Certificate::pem`. The text encodes a certificate whose signature was
/// randomised when it was made, so it is left unsaid.
#[verifier::external_body]
fn certificate_pem(cert: &Certificate) -> (r: String) {
    cert.pem()
}

/// Calls `KeyPair::serialize_pem`. The text encodes the private key, which is
/// random or read from a text and which Verus does not see into, so it is left
/// unsaid.
#[verifier::external_body]
fn key_pair_pem(key: &KeyPair) -> (r: String) {
    key.serialize_pem()
}

/// Calls `KeyPair::from_pem`. Whether it succeeds rests on the text and, for an
/// ECDSA key, on the system's random source (ring draws a nonce key when it
/// builds the key pair), and the key is opaque to Verus, so the result is left
/// unsaid.
#[verifier::external_body]
fn key_pair_from_pem(pem: &str) -> (r: Result<KeyPair, rcgen::Error>) {
    KeyPair::from_pem(pem)
}

/// Calls `rustls_pemfile::certs` on the text of `pem` and collects what it
/// reads, a certificate's DER bytes or `None` for an entry it could not read.
/// The items depend on the text alone.
#[verifier::external_body]
fn pem_certificates(pem: &str) -> (r: Vec<Option<Vec<u8>>>)
    ensures
        r.deep_view() == pem_certificate_items(pem@),
{
    let mut reader = std::io::Cursor::new(pem.as_bytes());
    rustls_pemfile::certs(&mut reader).map(|c| match c {
        Ok(der) => Some(der.as_ref().to_vec()),
        Err(_) => None,
    }).collect()
}

/// The DER bytes of the first certificate in `pem` that reads without error,
/// empty when there is none.
fn first_certificate_der(pem: &str) -> (r: Vec<u8>)
    ensures
        r@ == pem_first_certificate(pem@),
{
    let items = pem_certificates(pem);
    let ghost all = pem_certificate_items(pem@);
    let mut i: usize = 0;
    assert(all.skip(0) =~= all);
    while i < items.len()
        invariant
            all == pem_certificate_items(pem@),
            items.deep_view() == all,
            i <= all.len(),
            first_present(all) == first_present(all.skip(i as int)),
        decreases all.len() - i,
    {
        assert(all.skip(i as int)[0] == all[i as int]);
        assert(all[i as int] == items@[i as int].deep_view());
        match &items[i] {
            Some(der) => {
                assert(all[i as int] == Some(der@));
                return crate::text::copy_bytes(der);
            },
            None => {},
        }
        assert(all.skip(i as int).drop_first() =~= all.skip(i + 1));
        i += 1;
    }
    assert(all.skip(i as int) =~= Seq::<Option<Seq<u8>>>::empty());
    Vec::new()
}

/// Calls `rustls_pemfile::csr` on the text of `pem`: the DER bytes of the first
/// certificate request, `None` when there is none or reading fails. The result
/// depends on the text alone.
#[verifier::external_body]
fn pem_csr(pem: &str) -> (r: Option<Vec<u8>>)
    ensures
        r.deep_view() == pem_first_csr(pem@),
{
    let mut reader = std::io::BufReader::new(pem.as_bytes());
    match rustls_pemfile::csr(&mut reader) {
        Ok(Some(c)) => Some(c.as_ref().to_vec()),
        Ok(None) => None,
        Err(_) => None,
    }
}

/// The DER bytes of the first certificate request in `pem`, empty when there
/// is none or the text is malformed.
pub fn pem_to_der(pem: &str) -> (r: Vec<u8>)
    ensures
        r@ == match pem_first_csr(pem@) {
            Some(d) => d,
            None => Seq::<u8>::empty(),
        },
{
    match pem_csr(pem) {
        Some(d) => d,
        None => Vec::new(),
    }
}

/// Calls `uuid::Uuid::new_v4` and formats it with `to_string`: a random id in
/// the 36-character hyphenated form.
#[verifier::external_body]
pub(crate) fn new_uuid() -> (r: String)
    ensures
        r@.len() == 36,
{
    uuid::Uuid::new_v4().to_string()
}

/// The id by which agents know a host: the first 8 bytes of its CA certificate
/// (fewer when it is shorter), in lower-case hexadecimal.
pub open spec fn host_id_text(ca_der: Seq<u8>) -> Seq<char> {
    hex_text(ca_der.take(if ca_der.len() < 8 { ca_der.len() as int } else { 8 }))
}

/// The host id of the CA certificate `ca_der`.
pub fn host_id_of(ca_der: &[u8]) -> (r: String)
    ensures
        r@ == host_id_text(ca_der@),
{
    let n: usize = if ca_der.len() < 8 { ca_der.len() } else { 8 };
    let mut head: Vec<u8> = Vec::with_capacity(n);
    let mut i: usize = 0;
    while i < n
        invariant
            n <= ca_der@.len(),
            n == (if ca_der@.len() < 8 { ca_der@.len() as int } else { 8 }),
            i <= n,
            head@ == ca_der@.take(i as int),
        decreases n - i,
    {
        head.push(ca_der[i]);
        assert(ca_der@.take(i + 1) =~= ca_der@.take(i as int).push(ca_der@[i as int]));
        i += 1;
    }
    hex_encode(head.as_slice())
}

/// Host's certificate authority: signs all agent certificates. Its private key
/// never leaves the host.
pub struct CertificateAuthority {
    cert: Certificate,
    key_pair: KeyPair,
    cert_der: Vec<u8>,
    cert_pem: String,
}

impl CertificateAuthority {
    /// The DER bytes of the CA certificate as first created or read.
    pub closed spec fn der(&self) -> Seq<u8> {
        self.cert_der@
    }

    /// The PEM text of the CA's certificate, as it is saved.
    pub closed spec fn pem(&self) -> Seq<char> {
        self.cert_pem@
    }

    /// A new CA ("Contixis Root CA", organisation "Contixis", valid 2024 to 2035)
    /// with a fresh key pair. Its DER bytes are those read back from the PEM
    /// text it is saved as, so that loading the saved text gives the same host id.
    pub fn generate() -> (r: Result<Self, PkiError>)
        ensures
            r matches Ok(ca) ==> ca.der() == pem_first_certificate(ca.pem()),
    {
        let key_pair = match generate_key_pair() {
            Ok(k) => k,
            Err(_) => {
                return Err(PkiError::Certificate);
            },
        };
        let cert = match self_signed_ca(&key_pair, "Contixis Root CA", "Contixis", (2024, 1, 1), (2035, 1, 1)) {
            Ok(c) => c,
            Err(_) => {
                return Err(PkiError::Certificate);
            },
        };
        let cert_pem = certificate_pem(&cert);
        let cert_der = first_certificate_der(cert_pem.as_str());
        Ok(CertificateAuthority { cert, key_pair, cert_der, cert_pem })
    }

    /// The CA kept in PEM form: its certificate keeps the DER bytes of the
    /// saved certificate; its PEM text is that of the certificate rebuilt from the
    /// saved one and signed again with the key.
    pub fn load(cert_pem: &str, key_pem: &str) -> (r: Result<Self, PkiError>)
        ensures
            r matches Ok(ca) ==> ca.der() == pem_first_certificate(cert_pem@),
    {
        let cert_der = first_certificate_der(cert_pem);
        let key_pair = match key_pair_from_pem(key_pem) {
            Ok(k) => k,
            Err(_) => {
                return Err(PkiError::Certificate);
            },
        };
        let cert = match rebuild_ca(cert_pem, &key_pair) {
            Ok(c) => c,
            Err(_) => {
                return Err(PkiError::Certificate);
            },
        };
        let rebuilt_pem = certificate_pem(&cert);
        Ok(CertificateAuthority { cert, key_pair, cert_der, cert_pem: rebuilt_pem })
    }

    /// Sign an agent's certificate request; returns the DER-encoded agent
    /// certificate.
    pub fn sign_csr(&self, csr_pem: &str, device_id: &str) -> (r: Result<Vec<u8>, PkiError>)
        ensures
            request_public_key(csr_pem@) is None ==> r is Err,
            r matches Ok(d) ==> (request_public_key(csr_pem@) matches Some(k) && holds_bytes(d@, k)),
    {
        match sign_request(csr_pem, &self.cert, &self.key_pair) {
            Ok((der, _key)) => Ok(der),
            Err(_) => Err(PkiError::Certificate),
        }
    }

    pub fn cert_der(&self) -> (r: &[u8])
        ensures
            r@ == self.der(),
    {
        self.cert_der.as_slice()
    }

    /// The PEM text of the CA's certificate.
    pub fn cert_pem(&self) -> (r: String)
        ensures
            r@ == self.pem(),
    {
        self.cert_pem.clone()
    }

    /// The private key in PEM form, for saving.
    pub fn key_pem(&self) -> (r: String) {
        key_pair_pem(&self.key_pair)
    }
}

/// Per-device identity: stable id and TLS key pair, and the certificate the
/// host issued once paired.
pub struct DeviceIdentity {
    pub device_id: String,
    key_pair: KeyPair,
    cert_der: Option<Vec<u8>>,
}

impl DeviceIdentity {
    /// The device id.
    pub closed spec fn id(&self) -> Seq<char> {
        self.device_id@
    }

    /// The certificate installed after pairing, if any.
    pub closed spec fn cert(&self) -> Option<Seq<u8>> {
        match self.cert_der {
            Some(v) => Some(v@),
            None => None,
        }
    }

    /// A new identity: a random id and a fresh key pair, no certificate yet.
    pub fn generate() -> (r: Result<Self, PkiError>)
        ensures
            r matches Ok(d) ==> d.id().len() == 36 && d.cert() is None,
    {
        let device_id = new_uuid();
        let key_pair = match generate_key_pair() {
            Ok(k) => k,
            Err(_) => {
                return Err(PkiError::Certificate);
            },
        };
        Ok(DeviceIdentity { device_id, key_pair, cert_der: None })
    }

    /// The identity kept on disk: the id text (surrounding whitespace dropped),
    /// the private key in PEM form, and the issued certificate if there is one.
    pub fn from_saved(device_id_text: &str, key_pem: &str, cert_der: Option<Vec<u8>>) -> (r: Result<Self, PkiError>)
        ensures
            r matches Ok(d) ==> d.id() == trim(device_id_text@) && d.cert() == match cert_der {
                Some(v) => Some(v@),
                None => None::<Seq<u8>>,
            },
    {
        let cs = chars_of(device_id_text);
        let (a, b) = trim_bounds(cs.as_slice());
        let mut device_id = String::new();
        let mut i: usize = a;
        while i < b
            invariant
                a <= i <= b <= cs@.len(),
                device_id@ == cs@.subrange(a as int, i as int),
            decreases b - i,
        {
            push_char(&mut device_id, cs[i]);
            assert(cs@.subrange(a as int, i + 1) =~= cs@.subrange(a as int, i as int).push(cs@[i as int]));
            i += 1;
        }
        let key_pair = match key_pair_from_pem(key_pem) {
            Ok(k) => k,
            Err(_) => {
                return Err(PkiError::Certificate);
            },
        };
        Ok(DeviceIdentity { device_id, key_pair, cert_der })
    }

    /// A certificate request (PEM) for the subject "contixis-device-<id>", to
    /// send to the host while pairing.
    pub fn csr_pem(&self) -> (r: Result<String, PkiError>)
        ensures
            r matches Ok(p) ==> pem_first_csr(p@) is Some && request_public_key(p@) is Some,
    {
        let name = concat_str("contixis-device-", self.device_id.as_str());
        match request_pem(&self.key_pair, name.as_str()) {
            Ok(p) => Ok(p),
            Err(_) => Err(PkiError::Certificate),
        }
    }

    /// Keep the CA-signed certificate received after pairing.
    pub fn install_cert(&mut self, cert_der: Vec<u8>)
        ensures
            final(self).cert() == Some(cert_der@),
            final(self).id() == old(self).id(),
    {
        self.cert_der = Some(cert_der);
    }

    /// The private key in PEM form (never transmitted).
    pub fn private_key_pem(&self) -> (r: String) {
        key_pair_pem(&self.key_pair)
    }

    pub fn has_cert(&self) -> (r: bool)
        ensures
            r == self.cert() is Some,
    {
        self.cert_der.is_some()
    }

    pub fn cert_der(&self) -> (r: Option<&[u8]>)
        ensures
            match self.cert() {
                Some(c) => r matches Some(s) && s@ == c,
                None => r is None,
            },
    {
        match &self.cert_der {
            Some(v) => Some(v.as_slice()),
            None => None,
        }
    }

    /// A self-signed DER certificate for the subject "contixis-agent-<id>", the
    /// TLS certificate before pairing.
    pub fn self_signed_cert_der(&self) -> (r: Result<Vec<u8>, PkiError>) {
        let name = concat_str("contixis-agent-", self.device_id.as_str());
        match self_signed(&self.key_pair, name.as_str()) {
            Ok(c) => Ok(certificate_der(&c)),
            Err(_) => Err(PkiError::Certificate),
        }
    }

    /// The DER certificate for TLS connections: the issued one once paired,
    /// else a self-signed one.
    pub fn connection_cert_der(&self) -> (r: Result<Vec<u8>, PkiError>)
        ensures
            self.cert() matches Some(c) ==> r matches Ok(v) && v@ == c,
    {
        match &self.cert_der {
            Some(der) => Ok(crate::text::copy_bytes(der)),
            None => self.self_signed_cert_der(),
        }
    }
}

} // verus!
