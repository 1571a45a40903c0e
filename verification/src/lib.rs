//! LiteVPN: a QUIC/TUN VPN for one client and one server. This crate holds
//! the verified parts: the authentication exchange, configuration checks,
//! the datagram pacing and backlog decisions, benchmark reports and the
//! client token.
use vstd::prelude::*;

pub mod auth;
pub mod bench;
pub mod config;
pub mod keygen;
pub mod pem;
pub mod quic;
pub mod routes;
pub mod session;
pub mod text;
pub mod transport;
pub mod tun;

verus! {

/// Application protocol name negotiated during the TLS handshake (`litevpn/1`).
pub const ALPN: [u8; 9] = [0x6c, 0x69, 0x74, 0x65, 0x76, 0x70, 0x6e, 0x2f, 0x31];

/// Bytes that open every authentication request (`LVPN1 `).
pub const AUTH_MAGIC: [u8; 6] = [0x4c, 0x56, 0x50, 0x4e, 0x31, 0x20];

/// Reply to an accepted authentication request (`OK\n`).
pub const AUTH_OK: [u8; 3] = [0x4f, 0x4b, 0x0a];

/// Reply to a refused authentication request (`ERR\n`).
pub const AUTH_ERR: [u8; 4] = [0x45, 0x52, 0x52, 0x0a];

/// Tunnel MTU used when the configuration names none.
pub const DEFAULT_MTU: u16 = 1300;

/// Largest tunnel MTU that still fits in a QUIC datagram.
pub const MAX_MTU: u16 = 1400;

/// Default size of the QUIC datagram send and receive buffers.
pub const DEFAULT_DATAGRAM_BUFFER_BYTES: usize = 4 * 1024 * 1024;

/// Default cap on datagrams queued but not yet sent.
pub const DEFAULT_DATAGRAM_BACKLOG_PACKETS: u64 = 64;

/// Default UDP socket buffer size; zero keeps the system default.
pub const DEFAULT_UDP_SOCKET_BUFFER_BYTES: usize = 0;

/// The authentication magic as a byte sequence.
pub open spec fn magic_bytes() -> Seq<u8> {
    seq![0x4cu8, 0x56u8, 0x50u8, 0x4eu8, 0x31u8, 0x20u8]
}

/// The accepting reply as a byte sequence.
pub open spec fn ok_bytes() -> Seq<u8> {
    seq![0x4fu8, 0x4bu8, 0x0au8]
}

/// The refusing reply as a byte sequence.
pub open spec fn err_bytes() -> Seq<u8> {
    seq![0x45u8, 0x52u8, 0x52u8, 0x0au8]
}

} // verus!
