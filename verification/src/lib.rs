//! Verified core of a keyboard/mouse sharing system: wire protocol, session
//! state machine, screen layouts, clipboard arbitration and pairing.
pub mod text;
pub mod keyed;
pub mod proto;
pub mod framing;
pub mod clock;
pub mod session;
pub mod spatial;
pub mod grid;
pub mod clipboard;
pub mod store;
pub mod crypto;
pub mod pairing;
pub mod input;
pub mod cursor;
pub mod monitors;
pub mod pool;
pub mod scan;
pub mod evdev;
pub mod device;
pub mod pki;
pub mod handshake;
pub mod focus;
pub mod discovery;
pub mod agent_state;
pub mod inject;
pub mod codec;
pub mod host_view;
pub mod config;
