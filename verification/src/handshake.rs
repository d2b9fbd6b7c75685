//! The session handshake: the host's side (accept a device, pair it when it is
//! unknown) and the agent's side (introduce itself, answer a pairing request).
//!
//! Each side alternates reading a frame and deciding what to send; the frames
//! are read and written by the caller, which hands each decoded frame to the
//! step functions here and performs what they answer.
use vstd::prelude::*;
use crate::crypto::{base64_encode, base64_text, random_bytes};
use crate::pairing::{compute_pin_mac, expected_mac, pin_text, PairingError, PairingManager, PairingSession};
use crate::pki::{holds_bytes, new_uuid, host_id_of, host_id_text, pem_first_csr, pem_to_der, request_public_key, CertificateAuthority, DeviceIdentity, PkiError};
use crate::proto::MsgType;
use crate::scan::chars_of;
use crate::session::{next_state, SessionEvent, SessionFsm, SessionState};
use crate::store::{AgentStore, HostStore, TrustedAgent, TrustedHost};
use crate::text::push_char;

verus! {

/// Protocol version an agent announces.
pub const PROTOCOL_VERSION: &'static str = "1";

/// Seconds the host waits for the agent's first frame.
pub const HOST_HANDSHAKE_TIMEOUT_SECS: u64 = 10;

/// Seconds the host waits for the pairing request after showing the PIN.
pub const PAIRING_REQUEST_TIMEOUT_SECS: u64 = 120;

/// Seconds the agent waits for the host's answer to its handshake and to its
/// pairing request.
pub const AGENT_REPLY_TIMEOUT_SECS: u64 = 30;

/// Seconds the agent waits for `SessionReady` after pairing.
pub const SESSION_READY_TIMEOUT_SECS: u64 = 10;

/// Number of random bytes in the host's pairing nonce.
pub const NONCE_LEN: usize = 16;

/// One screen of an agent, as it reports it.
#[derive(Debug)]
pub struct ScreenDesc {
    pub id: String,
    pub width_px: u32,
    pub height_px: u32,
    /// Bits of the `f32` DPI scale.
    pub dpi_scale_bits: u32,
    pub is_primary: bool,
    pub offset_x: i32,
    pub offset_y: i32,
}

/// The agent's `Handshake` message.
#[derive(Debug)]
pub struct Hello {
    pub device_id: String,
    pub protocol_version: String,
    pub device_name: String,
    pub os_type: String,
    pub screens: Vec<ScreenDesc>,
}

/// A frame the host reads from an agent during the handshake, decoded.
#[derive(Debug)]
pub enum AgentFrame {
    Hello(Hello),
    PairingRequest { csr: Vec<u8>, pin_mac: Vec<u8> },
    /// A frame of another type.
    Other(MsgType),
}

/// A frame the agent reads from the host during the handshake, decoded.
#[derive(Debug)]
pub enum HostFrame {
    SessionReady { session_id: String },
    PairingRequired { nonce: Vec<u8> },
    PairingSuccess { agent_cert_der: Vec<u8>, ca_cert_der: Vec<u8> },
    PairingFailed { reason: String },
    /// A frame of another type.
    Other(MsgType),
}

/// Why a handshake ended without a session.
#[derive(Debug)]
pub enum HandshakeError {
    /// A frame of this type came where another was expected.
    Unexpected(MsgType),
    /// The host refused the pairing attempt.
    Pairing(PairingError),
    /// The host reported that pairing failed, for this reason.
    PairingRefused(String),
    /// A certificate could not be made or signed.
    Certificate,
}

/// The type of an agent frame.
pub open spec fn agent_frame_type(f: AgentFrame) -> MsgType {
    match f {
        AgentFrame::Hello(_) => MsgType::Handshake,
        AgentFrame::PairingRequest { .. } => MsgType::PairingRequest,
        AgentFrame::Other(t) => t,
    }
}

/// The type of a host frame.
pub open spec fn host_frame_type(f: HostFrame) -> MsgType {
    match f {
        HostFrame::SessionReady { .. } => MsgType::SessionReady,
        HostFrame::PairingRequired { .. } => MsgType::PairingRequired,
        HostFrame::PairingSuccess { .. } => MsgType::PairingSuccess,
        HostFrame::PairingFailed { .. } => MsgType::PairingFailed,
        HostFrame::Other(t) => t,
    }
}

fn agent_frame_kind(f: &AgentFrame) -> (r: MsgType)
    ensures
        r == agent_frame_type(*f),
{
    match f {
        AgentFrame::Hello(_) => MsgType::Handshake,
        AgentFrame::PairingRequest { .. } => MsgType::PairingRequest,
        AgentFrame::Other(t) => *t,
    }
}

fn host_frame_kind(f: &HostFrame) -> (r: MsgType)
    ensures
        r == host_frame_type(*f),
{
    match f {
        HostFrame::SessionReady { .. } => MsgType::SessionReady,
        HostFrame::PairingRequired { .. } => MsgType::PairingRequired,
        HostFrame::PairingSuccess { .. } => MsgType::PairingSuccess,
        HostFrame::PairingFailed { .. } => MsgType::PairingFailed,
        HostFrame::Other(t) => *t,
    }
}

/// Status updates the host reports while a handshake runs.
#[derive(Debug)]
pub enum HandshakeEvent {
    Connected { device_id: String, display_name: String, os_type: String },
    PairingPin { device_id: String, pin: String },
}

/// What the host knows of a device once its handshake is complete.
#[derive(Debug)]
pub struct HandshakeInfo {
    pub device_id: String,
    pub display_name: String,
    pub os_type: String,
    pub screens: Vec<ScreenDesc>,
}

/// What the host does after the agent's first frame.
#[derive(Debug)]
pub enum HostStep {
    /// The device is trusted: send `SessionReady` with this session id and the
    /// CA certificate; the session is established.
    Ready { session_id: String, ca_cert_der: Vec<u8> },
    /// The device must pair: show `pin`, send `PairingRequired` with `nonce`,
    /// and hand the agent's next frame to `HostSession::on_pairing_request`.
    Pair { pin: String, nonce: Vec<u8> },
}

/// What the host does after the agent's pairing request.
#[derive(Debug)]
pub enum HostOutcome {
    /// Send `PairingSuccess` with the agent's new certificate and the CA
    /// certificate, then `SessionReady` with this session id.
    Accepted { agent_cert_der: Vec<u8>, ca_cert_der: Vec<u8>, session_id: String },
    /// Send `PairingFailed` with this reason; the handshake fails with `error`.
    Rejected { reason: String, error: PairingError },
}

/// The host's side of one handshake.
pub struct HostSession {
    pub fsm: SessionFsm,
    pub display_name: String,
    pub os_type: String,
    pub screens: Vec<ScreenDesc>,
    /// The nonce sent with `PairingRequired` (empty for a trusted device).
    pub nonce: Vec<u8>,
}

/// The name a device is recorded under: none when it sent an empty one.
pub open spec fn recorded_name(display_name: Seq<char>) -> Option<Seq<char>> {
    if display_name.len() == 0 {
        None
    } else {
        Some(display_name)
    }
}

pub open spec fn name_view(n: Option<String>) -> Option<Seq<char>> {
    match n {
        Some(s) => Some(s@),
        None => None,
    }
}

fn copy_string(s: &String) -> (r: String)
    ensures
        r@ == s@,
{
    s.as_str().to_owned()
}

impl HostSession {
    /// Handle the agent's first frame. It must be a `Handshake`; a trusted
    /// device gets its session at once, an unknown one gets a pairing session
    /// with a fresh PIN and a random nonce.
    pub fn on_hello(frame: AgentFrame, store: &HostStore, pairing: &mut PairingManager, ca: &CertificateAuthority) -> (r: Result<(HostSession, Vec<HandshakeEvent>, HostStep), HandshakeError>)
        ensures
            match frame {
                AgentFrame::Hello(h) => r matches Ok((s, events, step)) && {
                    &&& s.fsm.device_id@ == h.device_id@
                    &&& s.display_name@ == h.device_name@
                    &&& s.os_type@ == h.os_type@
                    &&& s.screens == h.screens
                    &&& events@.len() >= 1
                    &&& events@[0] matches HandshakeEvent::Connected { device_id, display_name, os_type }
                        && device_id@ == h.device_id@ && display_name@ == h.device_name@ && os_type@ == h.os_type@
                    &&& if store@.contains_key(h.device_id@) {
                        &&& s.fsm.state == SessionState::Established
                        &&& events@.len() == 1
                        &&& step matches HostStep::Ready { ca_cert_der, .. } && ca_cert_der@ == ca.der()
                        &&& final(pairing)@ == old(pairing)@
                    } else {
                        &&& s.fsm.state == SessionState::PairingPending
                        &&& events@.len() == 2
                        &&& step matches HostStep::Pair { pin, nonce } && {
                            &&& exists|n: int| 0 <= n < 1_000_000 && pin@ == pin_text(n)
                            &&& nonce@ == s.nonce@
                            &&& nonce@.len() == NONCE_LEN
                            &&& events@[1] matches HandshakeEvent::PairingPin { device_id, pin: shown }
                                && device_id@ == h.device_id@ && shown@ == pin@
                            &&& final(pairing)@.contains_key(h.device_id@)
                            &&& final(pairing)@[h.device_id@].pin@ == pin@
                            &&& forall|k: Seq<char>| k != h.device_id@ ==> (#[trigger] final(pairing)@.contains_key(k)
                                == old(pairing)@.contains_key(k) && (old(pairing)@.contains_key(k)
                                ==> final(pairing)@[k] == old(pairing)@[k]))
                        }
                    }
                },
                _ => r matches Err(HandshakeError::Unexpected(t)) && t == agent_frame_type(frame)
                    && final(pairing)@ == old(pairing)@,
            },
    {
        let kind = agent_frame_kind(&frame);
        let hello = match frame {
            AgentFrame::Hello(h) => h,
            _ => {
                return Err(HandshakeError::Unexpected(kind));
            },
        };
        let Hello { device_id, device_name, os_type, screens, .. } = hello;
        let mut events: Vec<HandshakeEvent> = Vec::new();
        events.push(HandshakeEvent::Connected {
            device_id: copy_string(&device_id),
            display_name: copy_string(&device_name),
            os_type: copy_string(&os_type),
        });
        let trusted = store.is_trusted(device_id.as_str());
        let dev_copy = copy_string(&device_id);
        let mut fsm = SessionFsm::new(device_id);
        if trusted {
            fsm.apply(SessionEvent::SessionReady);
            let session_id = new_uuid();
            let ca_cert_der = vstd::slice::slice_to_vec(ca.cert_der());
            let s = HostSession { fsm, display_name: device_name, os_type, screens, nonce: Vec::new() };
            Ok((s, events, HostStep::Ready { session_id, ca_cert_der }))
        } else {
            fsm.apply(SessionEvent::NeedsPairing);
            fsm.apply(SessionEvent::PairingStarted);
            let pin = pairing.create_session(dev_copy);
            events.push(HandshakeEvent::PairingPin { device_id: copy_string(&fsm.device_id), pin: copy_string(&pin) });
            let nonce = random_bytes(NONCE_LEN);
            let sent = crate::text::copy_bytes(&nonce);
            let s = HostSession { fsm, display_name: device_name, os_type, screens, nonce };
            Ok((s, events, HostStep::Pair { pin, nonce: sent }))
        }
    }

    /// Handle the agent's answer to `PairingRequired`. It must be a
    /// `PairingRequest`; its MAC is checked against the pairing session (which is
    /// consumed whatever the outcome). When it matches, the CA signs the request,
    /// wrapped in PEM armour; the certificate it issues carries the request's
    /// public key. The caller sends `PairingSuccess` and then records the device with
    /// `record_pairing`.
    pub fn on_pairing_request(&mut self, frame: AgentFrame, pairing: &mut PairingManager, ca: &CertificateAuthority) -> (r: Result<HostOutcome, HandshakeError>)
        requires
            old(self).fsm.state == SessionState::PairingPending,
        ensures
            final(self).fsm.device_id == old(self).fsm.device_id,
            final(self).display_name == old(self).display_name,
            match frame {
                AgentFrame::PairingRequest { csr, pin_mac } => {
                    let dev = old(self).fsm.device_id@;
                    let open_session = old(pairing)@.contains_key(dev);
                    let mac_ok = open_session && pin_mac@ == expected_mac(old(pairing)@[dev].pin@, csr@, old(self).nonce@);
                    &&& final(pairing)@ == old(pairing)@.remove(dev)
                    &&& r matches Ok(HostOutcome::Accepted { ca_cert_der, agent_cert_der, .. }) ==> {
                        &&& mac_ok
                        &&& (request_public_key(csr_pem_text(csr@)) matches Some(k) && holds_bytes(agent_cert_der@, k))
                        &&& ca_cert_der@ == ca.der()
                        &&& final(self).fsm.state == SessionState::PairingPending
                    }
                    &&& r matches Ok(HostOutcome::Rejected { reason, error }) ==> {
                        &&& reason@ == error.text(dev)
                        &&& final(self).fsm.state == SessionState::PairingRequired
                        &&& (error == PairingError::NoSession <==> !open_session)
                        &&& (error == PairingError::MacMismatch ==> open_session && !mac_ok)
                        &&& (error == PairingError::Expired ==> open_session)
                        &&& (mac_ok ==> error == PairingError::Expired)
                        &&& (error == PairingError::NoSession || error == PairingError::Expired || error == PairingError::MacMismatch)
                    }
                    &&& r matches Err(e) ==> e is Certificate && mac_ok && final(self).fsm.state == SessionState::PairingPending
                    &&& mac_ok && request_public_key(csr_pem_text(csr@)) is None ==> (r matches Err(HandshakeError::Certificate)
                        || r matches Ok(HostOutcome::Rejected { error: PairingError::Expired, .. }))
                    &&& !open_session ==> (r matches Ok(HostOutcome::Rejected { error, .. }) && error == PairingError::NoSession)
                    &&& open_session && !mac_ok ==> (r matches Ok(HostOutcome::Rejected { error, .. })
                        && (error == PairingError::MacMismatch || error == PairingError::Expired))
                },
                _ => r matches Err(HandshakeError::Unexpected(t)) && t == agent_frame_type(frame)
                    && final(pairing)@ == old(pairing)@
                    && final(self).fsm.state == old(self).fsm.state,
            },
    {
        let kind = agent_frame_kind(&frame);
        let (csr, pin_mac) = match frame {
            AgentFrame::PairingRequest { csr, pin_mac } => (csr, pin_mac),
            _ => {
                return Err(HandshakeError::Unexpected(kind));
            },
        };
        let verdict = pairing.verify_and_consume_bytes(self.fsm.device_id.as_str(), csr.as_slice(), self.nonce.as_slice(), pin_mac.as_slice());
        match verdict {
            Ok(_) => {
                let csr_pem = bytes_to_pem(csr.as_slice());
                let cert_der = match ca.sign_csr(csr_pem.as_str(), self.fsm.device_id.as_str()) {
                    Ok(c) => c,
                    Err(_) => {
                        return Err(HandshakeError::Certificate);
                    },
                };
                let ca_cert_der = vstd::slice::slice_to_vec(ca.cert_der());
                let session_id = new_uuid();
                Ok(HostOutcome::Accepted { agent_cert_der: cert_der, ca_cert_der, session_id })
            },
            Err(e) => {
                self.fsm.apply(SessionEvent::PairingFailed);
                let reason = e.message(self.fsm.device_id.as_str());
                Ok(HostOutcome::Rejected { reason, error: e })
            },
        }
    }

    /// After `PairingSuccess` was sent: record the device as trusted with the
    /// certificate it was issued (under its display name, none when empty), and
    /// establish the session.
    pub fn record_pairing(&mut self, store: &mut HostStore, agent_cert_der: Vec<u8>)
        requires
            old(self).fsm.state == SessionState::PairingPending,
        ensures
            final(self).fsm.device_id == old(self).fsm.device_id,
            final(self).fsm.state == SessionState::Established,
            final(store)@.dom() == old(store)@.dom().insert(old(self).fsm.device_id@),
            final(store)@[old(self).fsm.device_id@].device_id@ == old(self).fsm.device_id@,
            final(store)@[old(self).fsm.device_id@].cert_der@ == agent_cert_der@,
            name_view(final(store)@[old(self).fsm.device_id@].display_name) == recorded_name(old(self).display_name@),
            forall|k: Seq<char>| k != old(self).fsm.device_id@ && #[trigger] old(store)@.contains_key(k)
                ==> final(store)@[k] == old(store)@[k],
    {
        let display_name = if self.display_name.as_str().is_empty() {
            None
        } else {
            Some(copy_string(&self.display_name))
        };
        store.add_agent(TrustedAgent { device_id: copy_string(&self.fsm.device_id), cert_der: agent_cert_der, display_name });
        self.fsm.apply(SessionEvent::PairingSucceeded);
    }

    /// What the host knows of the device, once the handshake is complete.
    pub fn into_info(self) -> (r: HandshakeInfo)
        ensures
            r.device_id == self.fsm.device_id,
            r.display_name == self.display_name,
            r.os_type == self.os_type,
            r.screens == self.screens,
    {
        HandshakeInfo { device_id: self.fsm.device_id, display_name: self.display_name, os_type: self.os_type, screens: self.screens }
    }
}

pub open spec fn pem_begin() -> Seq<char> {
    "-----BEGIN CERTIFICATE REQUEST-----\n"@
}

pub open spec fn pem_end() -> Seq<char> {
    "\n-----END CERTIFICATE REQUEST-----\n"@
}

/// `t` cut into lines of 64 characters (the last one shorter), joined by line
/// feeds.
pub open spec fn wrap64(t: Seq<char>) -> Seq<char>
    decreases t.len(),
{
    if t.len() <= 64 {
        t
    } else {
        t.take(64) + seq!['\n'] + wrap64(t.skip(64))
    }
}

/// The PEM text of a DER certificate request: base64 in lines of 64 between the
/// BEGIN and END lines.
pub open spec fn csr_pem_text(der: Seq<u8>) -> Seq<char> {
    pem_begin() + wrap64(base64_text(der)) + pem_end()
}

/// Wrap a DER certificate request in PEM armour.
pub fn bytes_to_pem(der: &[u8]) -> (r: String)
    ensures
        r@ == csr_pem_text(der@),
{
    let b64 = base64_encode(der);
    let cs = chars_of(b64.as_str());
    let ghost t = cs@;
    let mut out: String = "-----BEGIN CERTIFICATE REQUEST-----\n".to_owned();
    let ghost start = out@;
    let mut i: usize = 0;
    assert(t.skip(0) =~= t);
    while i < cs.len()
        invariant
            t == cs@,
            t == base64_text(der@),
            start == pem_begin(),
            i <= t.len(),
            start + wrap64(t) == out@ + wrap64(t.skip(i as int)),
        decreases t.len() - i,
    {
        let ghost rest = t.skip(i as int);
        let end: usize = if cs.len() - i <= 64 { cs.len() } else { i + 64 };
        let ghost before = out@;
        let mut j: usize = i;
        while j < end
            invariant
                i <= j <= end <= cs@.len(),
                t == cs@,
                out@ == before + t.subrange(i as int, j as int),
            decreases end - j,
        {
            push_char(&mut out, cs[j]);
            assert(t.subrange(i as int, j + 1) =~= t.subrange(i as int, j as int).push(t[j as int]));
            j += 1;
        }
        if end < cs.len() {
            push_char(&mut out, '\n');
            assert(rest.take(64) =~= t.subrange(i as int, end as int));
            assert(rest.skip(64) =~= t.skip(end as int));
            assert(out@ + wrap64(t.skip(end as int)) =~= before + (rest.take(64) + seq!['\n'] + wrap64(rest.skip(64))));
        } else {
            assert(rest =~= t.subrange(i as int, end as int));
            assert(t.skip(end as int) =~= Seq::<char>::empty());
            assert(wrap64(t.skip(end as int)) =~= Seq::<char>::empty());
            assert(out@ + wrap64(t.skip(end as int)) =~= before + rest);
        }
        i = end;
    }
    assert(t.skip(i as int) =~= Seq::<char>::empty());
    assert(out@ + wrap64(t.skip(i as int)) =~= out@);
    let tail = chars_of("\n-----END CERTIFICATE REQUEST-----\n");
    let ghost mid = out@;
    let mut k: usize = 0;
    while k < tail.len()
        invariant
            k <= tail@.len(),
            tail@ == pem_end(),
            out@ == mid + tail@.take(k as int),
        decreases tail@.len() - k,
    {
        push_char(&mut out, tail[k]);
        assert(tail@.take(k + 1) =~= tail@.take(k as int).push(tail@[k as int]));
        k += 1;
    }
    assert(tail@.take(k as int) =~= tail@);
    out
}

/// What the agent does after the host's answer to its handshake.
#[derive(Debug)]
pub enum AgentStep {
    /// The agent is already paired: the session is established.
    Established,
    /// Pairing is needed: get the PIN from the user and build the request with
    /// `pairing_request`, using this nonce.
    NeedPin { nonce: Vec<u8> },
}

/// The agent's `Handshake` message.
pub fn agent_hello(device_id: String, device_name: String, os_type: String, screens: Vec<ScreenDesc>) -> (r: Hello)
    ensures
        r.device_id == device_id,
        r.protocol_version@ == PROTOCOL_VERSION@,
        r.device_name == device_name,
        r.os_type == os_type,
        r.screens == screens,
{
    Hello { device_id, protocol_version: PROTOCOL_VERSION.to_owned(), device_name, os_type, screens }
}

/// This machine's name as an agent announces it, "contixis-agent" when it
/// cannot be read.
pub fn hostname() -> (r: String) {
    crate::discovery::name_or(crate::discovery::system_hostname(), "contixis-agent")
}

/// Handle the host's answer to the agent's handshake.
pub fn agent_on_reply(frame: HostFrame) -> (r: Result<AgentStep, HandshakeError>)
    ensures
        match frame {
            HostFrame::SessionReady { .. } => r matches Ok(AgentStep::Established),
            HostFrame::PairingRequired { nonce } => r matches Ok(AgentStep::NeedPin { nonce: n }) && n == nonce,
            _ => r matches Err(HandshakeError::Unexpected(t)) && t == host_frame_type(frame),
        },
{
    let kind = host_frame_kind(&frame);
    match frame {
        HostFrame::SessionReady { .. } => Ok(AgentStep::Established),
        HostFrame::PairingRequired { nonce } => Ok(AgentStep::NeedPin { nonce }),
        _ => Err(HandshakeError::Unexpected(kind)),
    }
}

/// The DER bytes of the first certificate request in a PEM text, empty when it
/// holds none.
pub open spec fn request_der(csr_pem: Seq<char>) -> Seq<u8> {
    match pem_first_csr(csr_pem) {
        Some(d) => d,
        None => Seq::empty(),
    }
}

/// The pairing request for a certificate request in PEM form: its DER bytes,
/// and the MAC of the PIN over them and the host's nonce.
pub fn request_from_pem(csr_pem: &str, pin: &str, nonce: &[u8]) -> (r: (Vec<u8>, Vec<u8>))
    ensures
        r.0@ == request_der(csr_pem@),
        r.1@ == expected_mac(pin@, r.0@, nonce@),
{
    let csr_der = pem_to_der(csr_pem);
    let pin_mac = compute_pin_mac(pin, csr_der.as_slice(), nonce);
    (csr_der, pin_mac)
}

/// The agent's pairing request: the DER bytes of a fresh certificate request of
/// its identity, and the MAC of the PIN over them and the host's nonce.
pub fn pairing_request(identity: &DeviceIdentity, pin: &str, nonce: &[u8]) -> (r: Result<(Vec<u8>, Vec<u8>), HandshakeError>)
    ensures
        r matches Ok((csr, mac)) ==> mac@ == expected_mac(pin@, csr@, nonce@)
            && exists|p: Seq<char>| pem_first_csr(p) == Some(csr@),
        r matches Err(e) ==> e is Certificate,
{
    let csr_pem = match identity.csr_pem() {
        Ok(p) => p,
        Err(_) => {
            return Err(HandshakeError::Certificate);
        },
    };
    let (csr_der, pin_mac) = request_from_pem(csr_pem.as_str(), pin, nonce);
    assert(pem_first_csr(csr_pem@) == Some(csr_der@));
    Ok((csr_der, pin_mac))
}

/// Handle the host's answer to the pairing request. On success the agent keeps
/// the certificate the host issued and records the host, under the id its CA
/// certificate gives, with the address it was reached at.
pub fn agent_on_pairing_outcome(frame: HostFrame, identity: &mut DeviceIdentity, store: &mut AgentStore, remote_addr: String) -> (r: Result<(), HandshakeError>)
    ensures
        final(identity).id() == old(identity).id(),
        match frame {
            HostFrame::PairingSuccess { agent_cert_der, ca_cert_der } => {
                &&& r is Ok
                &&& final(identity).cert() == Some(agent_cert_der@)
                &&& final(store)@ == old(store)@.insert(
                    host_id_text(ca_cert_der@),
                    final(store)@[host_id_text(ca_cert_der@)],
                )
                &&& final(store)@[host_id_text(ca_cert_der@)].ca_der@ == ca_cert_der@
                &&& final(store)@[host_id_text(ca_cert_der@)].last_addr matches Some(a) && a@ == remote_addr@
                &&& final(store)@[host_id_text(ca_cert_der@)].display_name is None
            },
            HostFrame::PairingFailed { reason } => r matches Err(HandshakeError::PairingRefused(why))
                && why == reason && final(store)@ == old(store)@ && final(identity).cert() == old(identity).cert(),
            _ => r matches Err(HandshakeError::Unexpected(t)) && t == host_frame_type(frame)
                && final(store)@ == old(store)@ && final(identity).cert() == old(identity).cert(),
        },
{
    let kind = host_frame_kind(&frame);
    match frame {
        HostFrame::PairingSuccess { agent_cert_der, ca_cert_der } => {
            identity.install_cert(agent_cert_der);
            let host_id = host_id_of(ca_cert_der.as_slice());
            let ghost key = host_id@;
            store.add_host(TrustedHost { host_id, ca_der: ca_cert_der, last_addr: Some(remote_addr), display_name: None });
            Ok(())
        },
        HostFrame::PairingFailed { reason } => Err(HandshakeError::PairingRefused(reason)),
        _ => Err(HandshakeError::Unexpected(kind)),
    }
}

/// After pairing the host must confirm the session.
pub fn agent_on_session_ready(frame: &HostFrame) -> (r: Result<(), HandshakeError>)
    ensures
        match *frame {
            HostFrame::SessionReady { .. } => r is Ok,
            _ => r matches Err(HandshakeError::Unexpected(t)) && t == host_frame_type(*frame),
        },
{
    match frame {
        HostFrame::SessionReady { .. } => Ok(()),
        _ => Err(HandshakeError::Unexpected(host_frame_kind(frame))),
    }
}

/// Pairing is permanent: once the host recorded a device after accepting its
/// pairing request (`record_pairing`, whose store grows by the device), the
/// device is in the host's store, so its next handshake (`on_hello`) takes the
/// trusted path and gets its session without a PIN.
pub proof fn lemma_pairing_is_permanent(before: Map<Seq<char>, TrustedAgent>, after: Map<Seq<char>, TrustedAgent>, dev: Seq<char>)
    requires
        after.dom() == before.dom().insert(dev),
    ensures
        after.contains_key(dev),
{
}

} // verus!
