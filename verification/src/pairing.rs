//! PIN-based pairing: sessions keyed by device, MAC checks, expiry.
use vstd::prelude::*;
use std::time::Instant;
use crate::crypto::{ct_eq, hex_encode, hex_text, hmac_sha256, hmac_sha256_tag, random_below};
use crate::keyed::{keyed_map, keys_unique, lemma_keyed_absent, lemma_keyed_at, lemma_keyed_own_key, lemma_keyed_push, lemma_keyed_remove, lemma_keyed_set};
use crate::text::{concat_str, digit_char, push_digit};
use vstd::utf8::encode_utf8;

verus! {

/// A PIN stays valid for this many nanoseconds (two minutes).
pub const PIN_EXPIRY_NANOS: u128 = 120_000_000_000;

/// Number of decimal digits in a PIN.
pub const PIN_LENGTH: usize = 6;

#[derive(Debug)]
pub struct PairingSession {
    pub device_id: String,
    pub pin: String,
    pub created_at: Instant,
}

/// Why a pairing attempt was refused.
#[derive(Debug, Clone, Copy, PartialEq, Eq, Structural)]
pub enum PairingError {
    /// No pairing session is open for the device.
    NoSession,
    /// The session's PIN has expired.
    Expired,
    /// The hex HMAC over the CSR does not match.
    HmacMismatch,
    /// The raw MAC over CSR and nonce does not match.
    MacMismatch,
}

impl PairingError {
    /// The text of the error, as reported to the agent.
    pub open spec fn text(self, device_id: Seq<char>) -> Seq<char> {
        match self {
            PairingError::NoSession => "no active pairing session for device "@ + device_id,
            PairingError::Expired => "pairing session expired"@,
            PairingError::HmacMismatch => "pairing HMAC verification failed"@,
            PairingError::MacMismatch => "pairing MAC verification failed"@,
        }
    }

    /// The text of the error for an attempt by `device_id`.
    pub fn message(&self, device_id: &str) -> (r: String)
        ensures
            r@ == self.text(device_id@),
    {
        match self {
            PairingError::NoSession => concat_str("no active pairing session for device ", device_id),
            PairingError::Expired => "pairing session expired".to_owned(),
            PairingError::HmacMismatch => "pairing HMAC verification failed".to_owned(),
            PairingError::MacMismatch => "pairing MAC verification failed".to_owned(),
        }
    }
}

/// The HMAC key a PIN stands for: its UTF-8 bytes.
pub open spec fn pin_key(pin: Seq<char>) -> Seq<u8> {
    encode_utf8(pin)
}

/// The expected hex HMAC over a PEM CSR.
pub open spec fn expected_hmac_text(pin: Seq<char>, csr_pem: Seq<char>) -> Seq<char> {
    hex_text(hmac_sha256_tag(pin_key(pin), encode_utf8(csr_pem)))
}

/// The expected raw MAC over a DER CSR followed by the host's nonce.
pub open spec fn expected_mac(pin: Seq<char>, csr_der: Seq<u8>, nonce: Seq<u8>) -> Seq<u8> {
    hmac_sha256_tag(pin_key(pin), csr_der + nonce)
}

/// The six-digit, zero-padded decimal text of `n`.
pub open spec fn pin_text(n: int) -> Seq<char> {
    seq![
        digit_char((n / 100000) % 10),
        digit_char((n / 10000) % 10),
        digit_char((n / 1000) % 10),
        digit_char((n / 100) % 10),
        digit_char((n / 10) % 10),
        digit_char(n % 10),
    ]
}

/// A session is expired once more than two minutes have passed since it was made.
pub fn expired_after(elapsed_nanos: u128) -> (r: bool)
    ensures
        r == (elapsed_nanos > PIN_EXPIRY_NANOS),
{
    elapsed_nanos > PIN_EXPIRY_NANOS
}

/// The six-digit PIN text for a number below one million, zero-padded.
pub fn pin_from_number(n: u32) -> (r: String)
    requires
        n < 1_000_000,
    ensures
        r@ == pin_text(n as int),
{
    let mut s = String::new();
    push_digit(&mut s, (n / 100000) % 10);
    push_digit(&mut s, (n / 10000) % 10);
    push_digit(&mut s, (n / 1000) % 10);
    push_digit(&mut s, (n / 100) % 10);
    push_digit(&mut s, (n / 10) % 10);
    push_digit(&mut s, n % 10);
    assert(s@ =~= pin_text(n as int));
    s
}

/// A fresh random six-digit PIN.
pub fn generate_pin() -> (r: String)
    ensures
        exists|n: int| 0 <= n < 1_000_000 && r@ == pin_text(n),
{
    let n = random_below(1_000_000);
    pin_from_number(n)
}

/// The MAC an agent sends with its pairing request:
/// HMAC-SHA256 under the PIN's bytes over the DER CSR followed by the nonce.
pub fn compute_pin_mac(pin: &str, csr_der: &[u8], nonce: &[u8]) -> (r: Vec<u8>)
    ensures
        r@ == expected_mac(pin@, csr_der@, nonce@),
        r@.len() == 32,
{
    let mut data: Vec<u8> = Vec::with_capacity(csr_der.len());
    data.extend_from_slice(csr_der);
    data.extend_from_slice(nonce);
    assert(data@ =~= csr_der@ + nonce@);
    hmac_sha256(pin.as_bytes(), data.as_slice())
}

impl PairingSession {
    /// A session for `device_id` with `pin`, started now.
    pub fn start(device_id: String, pin: String) -> (r: Self)
        ensures
            r.device_id == device_id,
            r.pin == pin,
    {
        PairingSession { device_id, pin, created_at: crate::clock::now() }
    }

    /// Whether more than two minutes have passed since the session started. The
    /// answer depends on the clock.
    pub fn is_expired(&self) -> bool {
        expired_after(crate::clock::elapsed_nanos(&self.created_at))
    }

    /// HMAC-SHA256 under the PIN's bytes over `data`.
    pub fn compute_hmac_bytes(&self, data: &[u8]) -> (r: Vec<u8>)
        ensures
            r@ == hmac_sha256_tag(pin_key(self.pin@), data@),
            r@.len() == 32,
    {
        hmac_sha256(self.pin.as_str().as_bytes(), data)
    }

    /// HMAC-SHA256 under the PIN's bytes over a PEM CSR, as lower-case hex.
    pub fn compute_hmac(&self, csr_pem: &str) -> (r: String)
        ensures
            r@ == expected_hmac_text(self.pin@, csr_pem@),
    {
        let tag = self.compute_hmac_bytes(csr_pem.as_bytes());
        hex_encode(tag.as_slice())
    }

    /// Constant-time check of a hex HMAC over a PEM CSR.
    pub fn verify_hmac(&self, csr_pem: &str, provided_hmac: &str) -> (r: bool)
        ensures
            r == (provided_hmac@ == expected_hmac_text(self.pin@, csr_pem@)),
    {
        let expected = self.compute_hmac(csr_pem);
        proof {
            vstd::utf8::encode_utf8_decode_utf8(expected@);
            vstd::utf8::encode_utf8_decode_utf8(provided_hmac@);
        }
        if expected.as_str().len() != provided_hmac.len() {
            return false;
        }
        ct_eq(expected.as_str().as_bytes(), provided_hmac.as_bytes())
    }

    /// Constant-time check of a raw MAC over a DER CSR followed by a nonce.
    pub fn verify_mac_bytes(&self, csr_der: &[u8], nonce: &[u8], provided_mac: &[u8]) -> (r: bool)
        ensures
            r == (provided_mac@ == expected_mac(self.pin@, csr_der@, nonce@)),
            provided_mac@.len() != 32 ==> !r,
    {
        let mut data: Vec<u8> = Vec::with_capacity(csr_der.len());
        data.extend_from_slice(csr_der);
        data.extend_from_slice(nonce);
        assert(data@ =~= csr_der@ + nonce@);
        let expected = self.compute_hmac_bytes(data.as_slice());
        if expected.len() != provided_mac.len() {
            return false;
        }
        ct_eq(expected.as_slice(), provided_mac)
    }
}

/// The outcome of a pairing attempt on a session taken for checking: expired
/// sessions are refused first, then a bad MAC (`mismatch`); otherwise the
/// session is handed back.
pub fn judge_attempt(session: PairingSession, expired: bool, mac_ok: bool, mismatch: PairingError) -> (r: Result<PairingSession, PairingError>)
    ensures
        expired ==> r == Err::<PairingSession, PairingError>(PairingError::Expired),
        !expired && !mac_ok ==> r == Err::<PairingSession, PairingError>(mismatch),
        !expired && mac_ok ==> r == Ok::<PairingSession, PairingError>(session),
{
    if expired {
        return Err(PairingError::Expired);
    }
    if !mac_ok {
        return Err(mismatch);
    }
    Ok(session)
}

pub open spec fn session_key() -> spec_fn(PairingSession) -> Seq<char> {
    |s: PairingSession| s.device_id@
}

/// In-flight pairing sessions keyed by device id.
pub struct PairingManager {
    sessions: Vec<PairingSession>,
}

impl View for PairingManager {
    type V = Map<Seq<char>, PairingSession>;

    closed spec fn view(&self) -> Map<Seq<char>, PairingSession> {
        keyed_map(self.sessions@, session_key())
    }
}

fn session_position(sessions: &Vec<PairingSession>, device_id: &str) -> (r: Option<usize>)
    ensures
        r matches Some(i) ==> i < sessions@.len() && sessions@[i as int].device_id@ == device_id@,
        r is None ==> forall|j: int| 0 <= j < sessions@.len() ==> sessions@[j].device_id@ != device_id@,
{
    let mut i: usize = 0;
    while i < sessions.len()
        invariant
            i <= sessions@.len(),
            forall|j: int| 0 <= j < i ==> sessions@[j].device_id@ != device_id@,
        decreases sessions@.len() - i,
    {
        if sessions[i].device_id.as_str().eq(device_id) {
            return Some(i);
        }
        i += 1;
    }
    None
}

impl PairingManager {
    #[verifier::type_invariant]
    spec fn inv(self) -> bool {
        keys_unique(self.sessions@, session_key())
    }

    pub fn new() -> (r: Self)
        ensures
            r@ == Map::<Seq<char>, PairingSession>::empty(),
    {
        PairingManager { sessions: Vec::new() }
    }

    /// Open (or reopen) the session of `session.device_id`.
    pub fn insert_session(&mut self, session: PairingSession)
        ensures
            final(self)@ == old(self)@.insert(session.device_id@, session),
    {
        proof {
            use_type_invariant(&*self);
        }
        let found = session_position(&self.sessions, session.device_id.as_str());
        let mut all: Vec<PairingSession> = Vec::new();
        std::mem::swap(&mut all, &mut self.sessions);
        let ghost orig = all@;
        match found {
            Some(i) => {
                proof {
                    lemma_keyed_set(orig, session_key(), i as int, session);
                }
                all.set(i, session);
            },
            None => {
                proof {
                    lemma_keyed_push(orig, session_key(), session);
                }
                all.push(session);
            },
        }
        self.sessions = all;
    }

    /// Create a pairing session for `device_id` with a fresh random PIN, replacing
    /// any open one, and return the PIN to show to the user.
    pub fn create_session(&mut self, device_id: String) -> (r: String)
        ensures
            exists|n: int| 0 <= n < 1_000_000 && r@ == pin_text(n),
            final(self)@.contains_key(device_id@),
            final(self)@[device_id@].pin@ == r@,
            final(self)@[device_id@].device_id@ == device_id@,
            forall|k: Seq<char>| k != device_id@ ==> (#[trigger] final(self)@.contains_key(k) == old(self)@.contains_key(k)
                && (old(self)@.contains_key(k) ==> final(self)@[k] == old(self)@[k])),
    {
        let pin = generate_pin();
        let session = PairingSession::start(device_id, pin.clone());
        self.insert_session(session);
        pin
    }

    /// Take the session of `device_id` out of the manager.
    pub fn take_session(&mut self, device_id: &str) -> (r: Option<PairingSession>)
        ensures
            final(self)@ == old(self)@.remove(device_id@),
            r is Some <==> old(self)@.contains_key(device_id@),
            r matches Some(s) ==> s == old(self)@[device_id@] && s.device_id@ == device_id@,
    {
        proof {
            use_type_invariant(&*self);
        }
        let found = session_position(&self.sessions, device_id);
        let mut all: Vec<PairingSession> = Vec::new();
        std::mem::swap(&mut all, &mut self.sessions);
        let ghost orig = all@;
        let r = match found {
            Some(i) => {
                proof {
                    lemma_keyed_at(orig, session_key(), i as int);
                    lemma_keyed_remove(orig, session_key(), i as int);
                }
                Some(all.remove(i))
            },
            None => {
                proof {
                    lemma_keyed_absent(orig, session_key(), device_id@);
                    assert(keyed_map(orig, session_key()).remove(device_id@) =~= keyed_map(orig, session_key()));
                }
                None
            },
        };
        self.sessions = all;
        r
    }

    /// Check a hex HMAC over a PEM CSR and consume the session. The session is
    /// taken out whatever the outcome, so a PIN allows one attempt.
    pub fn verify_and_consume(&mut self, device_id: &str, csr_pem: &str, provided_hmac: &str) -> (r: Result<PairingSession, PairingError>)
        ensures
            final(self)@ == old(self)@.remove(device_id@),
            r == Err::<PairingSession, PairingError>(PairingError::NoSession) <==> !old(self)@.contains_key(device_id@),
            old(self)@.contains_key(device_id@) ==> {
                let s = old(self)@[device_id@];
                let ok = provided_hmac@ == expected_hmac_text(s.pin@, csr_pem@);
                &&& r matches Ok(got) ==> got == s && ok && got.device_id@ == device_id@
                &&& r matches Err(e) ==> e == PairingError::Expired || (e == PairingError::HmacMismatch && !ok)
            },
    {
        let session = match self.take_session(device_id) {
            Some(s) => s,
            None => {
                return Err(PairingError::NoSession);
            },
        };
        let expired = session.is_expired();
        let ok = if expired { false } else { session.verify_hmac(csr_pem, provided_hmac) };
        judge_attempt(session, expired, ok, PairingError::HmacMismatch)
    }

    /// Check a raw MAC over a DER CSR and the nonce, and consume the session. The
    /// session is taken out whatever the outcome, so a PIN allows one attempt.
    pub fn verify_and_consume_bytes(&mut self, device_id: &str, csr_der: &[u8], nonce: &[u8], provided_mac: &[u8]) -> (r: Result<PairingSession, PairingError>)
        ensures
            final(self)@ == old(self)@.remove(device_id@),
            r == Err::<PairingSession, PairingError>(PairingError::NoSession) <==> !old(self)@.contains_key(device_id@),
            old(self)@.contains_key(device_id@) ==> {
                let s = old(self)@[device_id@];
                let ok = provided_mac@ == expected_mac(s.pin@, csr_der@, nonce@);
                &&& r matches Ok(got) ==> got == s && ok && got.device_id@ == device_id@
                &&& r matches Err(e) ==> e == PairingError::Expired || (e == PairingError::MacMismatch && !ok)
            },
    {
        let session = match self.take_session(device_id) {
            Some(s) => s,
            None => {
                return Err(PairingError::NoSession);
            },
        };
        let expired = session.is_expired();
        let ok = if expired { false } else { session.verify_mac_bytes(csr_der, nonce, provided_mac) };
        judge_attempt(session, expired, ok, PairingError::MacMismatch)
    }

    /// Remove every session whose PIN has expired. Which ones those are depends on
    /// the clock; the sessions that stay are unchanged.
    pub fn purge_expired(&mut self)
        ensures
            forall|k: Seq<char>| #[trigger] final(self)@.contains_key(k) ==> old(self)@.contains_key(k)
                && final(self)@[k] == old(self)@[k],
    {
        proof {
            use_type_invariant(&*self);
        }
        let mut all: Vec<PairingSession> = Vec::new();
        std::mem::swap(&mut all, &mut self.sessions);
        let ghost orig = all@;
        let mut kept: Vec<PairingSession> = Vec::new();
        while all.len() > 0
            invariant
                keys_unique(orig, session_key()),
                keys_unique(kept@, session_key()),
                all@.len() <= orig.len(),
                all@ =~= orig.take(all@.len() as int),
                forall|j: int| 0 <= j < kept@.len() ==> exists|q: int| all@.len() <= q < orig.len() && orig[q] == #[trigger] kept@[j],
            decreases all@.len(),
        {
            let ghost n = all@.len() as int;
            let s = all.pop().unwrap();
            assert(s == orig[n - 1]);
            assert(all@ =~= orig.take(n - 1));
            if !s.is_expired() {
                proof {
                    assert forall|j: int| 0 <= j < kept@.len() implies kept@[j].device_id@ != s.device_id@ by {
                        let q = choose|q: int| n <= q < orig.len() && orig[q] == #[trigger] kept@[j];
                        assert(orig[n - 1].device_id@ != orig[q].device_id@);
                    }
                    lemma_keyed_push(kept@, session_key(), s);
                }
                kept.push(s);
                proof {
                    assert forall|j: int| 0 <= j < kept@.len() implies exists|q: int| all@.len() <= q < orig.len() && orig[q] == #[trigger] kept@[j] by {
                        if j == kept@.len() - 1 {
                            assert(orig[n - 1] == kept@[j]);
                        } else {
                            let q = choose|q: int| n <= q < orig.len() && orig[q] == #[trigger] kept@.drop_last()[j];
                            assert(kept@.drop_last()[j] == kept@[j]);
                        }
                    }
                }
            }
        }
        proof {
            assert forall|k: Seq<char>| #[trigger] keyed_map(kept@, session_key()).contains_key(k) implies
                keyed_map(orig, session_key()).contains_key(k) && keyed_map(kept@, session_key())[k]
                    == keyed_map(orig, session_key())[k] by {
                crate::keyed::lemma_keyed_domain(kept@, session_key(), k);
                let j = choose|j: int| 0 <= j < kept@.len() && kept@[j].device_id@ == k;
                let q = choose|q: int| 0 <= q < orig.len() && orig[q] == #[trigger] kept@[j];
                lemma_keyed_at(kept@, session_key(), j);
                lemma_keyed_at(orig, session_key(), q);
            }
        }
        self.sessions = kept;
    }
}

/// Every session of a pairing manager is kept under its own device id.
pub proof fn lemma_session_keyed_by_id(m: PairingManager, id: Seq<char>)
    requires
        m@.contains_key(id),
    ensures
        m@[id].device_id@ == id,
{
    lemma_keyed_own_key(m.sessions@, session_key(), id);
}

impl Default for PairingManager {
    fn default() -> (r: Self)
        ensures
            r@ == Map::<Seq<char>, PairingSession>::empty(),
    {
        PairingManager::new()
    }
}

/// The MAC an agent computes with the PIN it was shown is accepted by a host
/// session holding the same PIN, for the same CSR and nonce.
pub proof fn lemma_agent_mac_accepted(session_pin: Seq<char>, agent_pin: Seq<char>, csr_der: Seq<u8>, nonce: Seq<u8>, mac: Seq<u8>)
    requires
        agent_pin == session_pin,
        mac == expected_mac(agent_pin, csr_der, nonce),
    ensures
        mac == expected_mac(session_pin, csr_der, nonce),
{
}

/// A consumed session is gone: a second attempt for the same device finds no
/// session, whatever the first attempt's outcome.
pub proof fn lemma_single_attempt(sessions: Map<Seq<char>, PairingSession>, device: Seq<char>)
    ensures
        !sessions.remove(device).contains_key(device),
{
}

/// Every PIN is six decimal digits.
pub proof fn lemma_pin_digits(n: int)
    requires
        0 <= n < 1_000_000,
    ensures
        pin_text(n).len() == PIN_LENGTH,
        forall|i: int| 0 <= i < 6 ==> '0' <= #[trigger] pin_text(n)[i] <= '9',
{
    assert forall|i: int| 0 <= i < 6 implies '0' <= #[trigger] pin_text(n)[i] <= '9' by {
        let d = if i == 0 { (n / 100000) % 10 } else if i == 1 { (n / 10000) % 10 } else if i == 2 {
            (n / 1000) % 10 } else if i == 3 { (n / 100) % 10 } else if i == 4 { (n / 10) % 10 } else { n % 10 };
        assert(0 <= d < 10);
        assert(pin_text(n)[i] == digit_char(d));
    }
}

} // verus!
