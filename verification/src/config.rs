//! Server and client settings, their defaults and their validation, and
//! the client token as read from its file.
use vstd::prelude::*;
use vstd::utf8::*;

use crate::text::{is_blank, is_blank_str, is_space, trim, trim_to_string};
use crate::{DEFAULT_DATAGRAM_BUFFER_BYTES, DEFAULT_MTU, DEFAULT_UDP_SOCKET_BUFFER_BYTES, MAX_MTU};

verus! {

/// Congestion controller used on the QUIC connection.
#[derive(Debug, Clone, Copy, PartialEq, Eq, Structural)]
pub enum CongestionController {
    Cubic,
    Bbr,
}

impl Default for CongestionController {
    fn default() -> (r: Self)
        ensures
            r == CongestionController::Cubic,
    {
        CongestionController::Cubic
    }
}

/// Why a configuration or a token was refused.
#[derive(Debug, Clone, Copy, PartialEq, Eq, Structural)]
pub enum ConfigError {
    /// The MTU is below 576.
    MtuTooSmall,
    /// The MTU is above `MAX_MTU`.
    MtuTooLarge,
    /// The tunnel prefix is longer than 32 bits.
    PrefixTooLong,
    /// The datagram buffer is below 64 KiB.
    DatagramBufferTooSmall,
    /// The UDP receive buffer is neither 0 nor at least 64 KiB.
    UdpRecvBufferTooSmall,
    /// The UDP send buffer is neither 0 nor at least 64 KiB.
    UdpSendBufferTooSmall,
    /// The server's tunnel name is blank.
    TunNameEmpty,
    /// The server's external interface is blank.
    ExternalInterfaceEmpty,
    /// The client's server address is blank.
    ServerEmpty,
    /// The client's server name is blank.
    ServerNameEmpty,
    /// The token is shorter than 32 bytes once trimmed.
    TokenTooShort,
}

/// Server settings. Addresses are IPv4 octets; paths are as written.
pub struct ServerConfig {
    pub listen: String,
    pub tun_name: String,
    pub tun_ip: [u8; 4],
    pub tun_prefix: u8,
    pub client_ip: [u8; 4],
    pub mtu: u16,
    pub cert_path: String,
    pub key_path: String,
    pub auth_token_path: String,
    pub external_interface: String,
    pub datagram_buffer_bytes: usize,
    pub enable_linux_offload: bool,
    pub tx_queue_len: Option<u32>,
    pub congestion_controller: CongestionController,
    pub udp_recv_buffer_bytes: usize,
    pub udp_send_buffer_bytes: usize,
}

/// Client settings. Addresses are IPv4 octets; paths are as written.
pub struct ClientConfig {
    pub server: String,
    pub server_name: String,
    pub tun_name: String,
    pub client_ip: [u8; 4],
    pub server_tun_ip: [u8; 4],
    pub tun_prefix: u8,
    pub mtu: u16,
    pub ca_cert_path: String,
    pub auth_token_path: String,
    pub route_all: bool,
    pub dns: Vec<String>,
    pub datagram_buffer_bytes: usize,
    pub congestion_controller: CongestionController,
    pub udp_recv_buffer_bytes: usize,
    pub udp_send_buffer_bytes: usize,
}

/// Whether `c` holds the server defaults.
pub open spec fn is_default_server(c: ServerConfig) -> bool {
    &&& c.listen@ == "0.0.0.0:443"@
    &&& c.tun_name@ == "tun0"@
    &&& c.tun_ip@ == seq![10u8, 66u8, 0u8, 1u8]
    &&& c.tun_prefix == 24
    &&& c.client_ip@ == seq![10u8, 66u8, 0u8, 2u8]
    &&& c.mtu == DEFAULT_MTU
    &&& c.cert_path@ == "/etc/litevpn/server.crt"@
    &&& c.key_path@ == "/etc/litevpn/server.key"@
    &&& c.auth_token_path@ == "/etc/litevpn/client.token"@
    &&& c.external_interface@ == "ens3"@
    &&& c.datagram_buffer_bytes == DEFAULT_DATAGRAM_BUFFER_BYTES
    &&& !c.enable_linux_offload
    &&& c.tx_queue_len == Some(10_000u32)
    &&& c.congestion_controller == CongestionController::Cubic
    &&& c.udp_recv_buffer_bytes == DEFAULT_UDP_SOCKET_BUFFER_BYTES
    &&& c.udp_send_buffer_bytes == DEFAULT_UDP_SOCKET_BUFFER_BYTES
}

impl Default for ServerConfig {
    fn default() -> (c: Self)
        ensures
            is_default_server(c),
    {
        let tun_ip: [u8; 4] = [10, 66, 0, 1];
        let client_ip: [u8; 4] = [10, 66, 0, 2];
        assert(tun_ip@ =~= seq![10u8, 66u8, 0u8, 1u8]);
        assert(client_ip@ =~= seq![10u8, 66u8, 0u8, 2u8]);
        ServerConfig {
            listen: "0.0.0.0:443".to_owned(),
            tun_name: "tun0".to_owned(),
            tun_ip,
            tun_prefix: 24,
            client_ip,
            mtu: DEFAULT_MTU,
            cert_path: "/etc/litevpn/server.crt".to_owned(),
            key_path: "/etc/litevpn/server.key".to_owned(),
            auth_token_path: "/etc/litevpn/client.token".to_owned(),
            external_interface: "ens3".to_owned(),
            datagram_buffer_bytes: DEFAULT_DATAGRAM_BUFFER_BYTES,
            enable_linux_offload: false,
            tx_queue_len: Some(10_000),
            congestion_controller: CongestionController::Cubic,
            udp_recv_buffer_bytes: DEFAULT_UDP_SOCKET_BUFFER_BYTES,
            udp_send_buffer_bytes: DEFAULT_UDP_SOCKET_BUFFER_BYTES,
        }
    }
}

/// Whether `c` holds the client defaults.
pub open spec fn is_default_client(c: ClientConfig) -> bool {
    &&& c.server@ == "127.0.0.1:443"@
    &&& c.server_name@ == "litevpn.local"@
    &&& c.tun_name@ == Seq::<char>::empty()
    &&& c.client_ip@ == seq![10u8, 66u8, 0u8, 2u8]
    &&& c.server_tun_ip@ == seq![10u8, 66u8, 0u8, 1u8]
    &&& c.tun_prefix == 24
    &&& c.mtu == DEFAULT_MTU
    &&& c.ca_cert_path@ == "./config/server.crt"@
    &&& c.auth_token_path@ == "./config/client.token"@
    &&& c.route_all
    &&& c.dns@.len() == 2
    &&& c.dns@[0]@ == "1.1.1.1"@
    &&& c.dns@[1]@ == "8.8.8.8"@
    &&& c.datagram_buffer_bytes == DEFAULT_DATAGRAM_BUFFER_BYTES
    &&& c.congestion_controller == CongestionController::Cubic
    &&& c.udp_recv_buffer_bytes == DEFAULT_UDP_SOCKET_BUFFER_BYTES
    &&& c.udp_send_buffer_bytes == DEFAULT_UDP_SOCKET_BUFFER_BYTES
}

impl Default for ClientConfig {
    fn default() -> (c: Self)
        ensures
            is_default_client(c),
    {
        let client_ip: [u8; 4] = [10, 66, 0, 2];
        let server_tun_ip: [u8; 4] = [10, 66, 0, 1];
        assert(client_ip@ =~= seq![10u8, 66u8, 0u8, 2u8]);
        assert(server_tun_ip@ =~= seq![10u8, 66u8, 0u8, 1u8]);
        let mut dns: Vec<String> = Vec::new();
        dns.push("1.1.1.1".to_owned());
        dns.push("8.8.8.8".to_owned());
        ClientConfig {
            server: "127.0.0.1:443".to_owned(),
            server_name: "litevpn.local".to_owned(),
            tun_name: String::new(),
            client_ip,
            server_tun_ip,
            tun_prefix: 24,
            mtu: DEFAULT_MTU,
            ca_cert_path: "./config/server.crt".to_owned(),
            auth_token_path: "./config/client.token".to_owned(),
            route_all: true,
            dns,
            datagram_buffer_bytes: DEFAULT_DATAGRAM_BUFFER_BYTES,
            congestion_controller: CongestionController::Cubic,
            udp_recv_buffer_bytes: DEFAULT_UDP_SOCKET_BUFFER_BYTES,
            udp_send_buffer_bytes: DEFAULT_UDP_SOCKET_BUFFER_BYTES,
        }
    }
}

// ---------------------------------------------------------------------------
// Validation
// ---------------------------------------------------------------------------

/// The checks shared by both sides, in the order they are made.
pub open spec fn spec_validate_common(mtu: u16, prefix: u8, datagram_buffer_bytes: usize) -> Result<
    (),
    ConfigError,
> {
    if mtu < 576 {
        Err(ConfigError::MtuTooSmall)
    } else if mtu > MAX_MTU {
        Err(ConfigError::MtuTooLarge)
    } else if prefix > 32 {
        Err(ConfigError::PrefixTooLong)
    } else if datagram_buffer_bytes < 64 * 1024 {
        Err(ConfigError::DatagramBufferTooSmall)
    } else {
        Ok(())
    }
}

/// UDP socket buffers are either left to the system (0) or at least 64 KiB.
pub open spec fn spec_validate_udp_socket_buffers(
    recv_buffer_bytes: usize,
    send_buffer_bytes: usize,
) -> Result<(), ConfigError> {
    if recv_buffer_bytes != 0 && recv_buffer_bytes < 64 * 1024 {
        Err(ConfigError::UdpRecvBufferTooSmall)
    } else if send_buffer_bytes != 0 && send_buffer_bytes < 64 * 1024 {
        Err(ConfigError::UdpSendBufferTooSmall)
    } else {
        Ok(())
    }
}

/// Checks the MTU range, the prefix length and the datagram buffer size.
pub fn validate_common(mtu: u16, prefix: u8, datagram_buffer_bytes: usize) -> (r: Result<
    (),
    ConfigError,
>)
    ensures
        r == spec_validate_common(mtu, prefix, datagram_buffer_bytes),
{
    if mtu < 576 {
        return Err(ConfigError::MtuTooSmall);
    }
    if mtu > MAX_MTU {
        return Err(ConfigError::MtuTooLarge);
    }
    if prefix > 32 {
        return Err(ConfigError::PrefixTooLong);
    }
    if datagram_buffer_bytes < 64 * 1024 {
        return Err(ConfigError::DatagramBufferTooSmall);
    }
    Ok(())
}

/// Checks that each UDP socket buffer size is 0 or at least 64 KiB.
pub fn validate_udp_socket_buffers(recv_buffer_bytes: usize, send_buffer_bytes: usize) -> (r:
    Result<(), ConfigError>)
    ensures
        r == spec_validate_udp_socket_buffers(recv_buffer_bytes, send_buffer_bytes),
{
    if recv_buffer_bytes != 0 && recv_buffer_bytes < 64 * 1024 {
        return Err(ConfigError::UdpRecvBufferTooSmall);
    }
    if send_buffer_bytes != 0 && send_buffer_bytes < 64 * 1024 {
        return Err(ConfigError::UdpSendBufferTooSmall);
    }
    Ok(())
}

/// The verdict on a server configuration.
pub open spec fn spec_validate_server(c: ServerConfig) -> Result<(), ConfigError> {
    if spec_validate_common(c.mtu, c.tun_prefix, c.datagram_buffer_bytes) is Err {
        spec_validate_common(c.mtu, c.tun_prefix, c.datagram_buffer_bytes)
    } else if spec_validate_udp_socket_buffers(
        c.udp_recv_buffer_bytes,
        c.udp_send_buffer_bytes,
    ) is Err {
        spec_validate_udp_socket_buffers(c.udp_recv_buffer_bytes, c.udp_send_buffer_bytes)
    } else if is_blank(c.tun_name@) {
        Err(ConfigError::TunNameEmpty)
    } else if is_blank(c.external_interface@) {
        Err(ConfigError::ExternalInterfaceEmpty)
    } else {
        Ok(())
    }
}

/// The verdict on a client configuration.
pub open spec fn spec_validate_client(c: ClientConfig) -> Result<(), ConfigError> {
    if spec_validate_common(c.mtu, c.tun_prefix, c.datagram_buffer_bytes) is Err {
        spec_validate_common(c.mtu, c.tun_prefix, c.datagram_buffer_bytes)
    } else if spec_validate_udp_socket_buffers(
        c.udp_recv_buffer_bytes,
        c.udp_send_buffer_bytes,
    ) is Err {
        spec_validate_udp_socket_buffers(c.udp_recv_buffer_bytes, c.udp_send_buffer_bytes)
    } else if is_blank(c.server@) {
        Err(ConfigError::ServerEmpty)
    } else if is_blank(c.server_name@) {
        Err(ConfigError::ServerNameEmpty)
    } else {
        Ok(())
    }
}

impl ServerConfig {
    /// Checks the settings; the first failing check is reported.
    pub fn validate(&self) -> (r: Result<(), ConfigError>)
        ensures
            r == spec_validate_server(*self),
    {
        validate_common(self.mtu, self.tun_prefix, self.datagram_buffer_bytes)?;
        validate_udp_socket_buffers(self.udp_recv_buffer_bytes, self.udp_send_buffer_bytes)?;
        if is_blank_str(self.tun_name.as_str()) {
            return Err(ConfigError::TunNameEmpty);
        }
        if is_blank_str(self.external_interface.as_str()) {
            return Err(ConfigError::ExternalInterfaceEmpty);
        }
        Ok(())
    }
}

impl ClientConfig {
    /// Checks the settings; the first failing check is reported.
    pub fn validate(&self) -> (r: Result<(), ConfigError>)
        ensures
            r == spec_validate_client(*self),
    {
        validate_common(self.mtu, self.tun_prefix, self.datagram_buffer_bytes)?;
        validate_udp_socket_buffers(self.udp_recv_buffer_bytes, self.udp_send_buffer_bytes)?;
        if is_blank_str(self.server.as_str()) {
            return Err(ConfigError::ServerEmpty);
        }
        if is_blank_str(self.server_name.as_str()) {
            return Err(ConfigError::ServerNameEmpty);
        }
        Ok(())
    }
}

/// Whether the settings shared by both sides are in range: an MTU of 576 to
/// `MAX_MTU`, a prefix of at most 32 bits, a datagram buffer of at least
/// 64 KiB, and each UDP socket buffer 0 or at least 64 KiB.
pub open spec fn shared_settings_in_range(
    mtu: u16,
    prefix: u8,
    datagram_buffer_bytes: usize,
    udp_recv_buffer_bytes: usize,
    udp_send_buffer_bytes: usize,
) -> bool {
    &&& 576 <= mtu <= 1400
    &&& prefix <= 32
    &&& datagram_buffer_bytes >= 65536
    &&& (udp_recv_buffer_bytes == 0 || udp_recv_buffer_bytes >= 65536)
    &&& (udp_send_buffer_bytes == 0 || udp_send_buffer_bytes >= 65536)
}

/// A client configuration passes exactly when its shared settings are in
/// range and its server address and server name are not blank. With the
/// MTU, prefix and datagram buffer in range, a UDP receive buffer of 1 byte
/// to just under 64 KiB is refused as such, and otherwise a UDP send buffer
/// of that size is.
pub proof fn lemma_client_verdict(c: ClientConfig)
    ensures
        spec_validate_client(c) is Ok <==> shared_settings_in_range(
            c.mtu,
            c.tun_prefix,
            c.datagram_buffer_bytes,
            c.udp_recv_buffer_bytes,
            c.udp_send_buffer_bytes,
        ) && !is_blank(c.server@) && !is_blank(c.server_name@),
        576 <= c.mtu <= 1400 && c.tun_prefix <= 32 && c.datagram_buffer_bytes >= 65536 && 0
            < c.udp_recv_buffer_bytes < 65536 ==> spec_validate_client(c) == Err::<(), ConfigError>(
            ConfigError::UdpRecvBufferTooSmall,
        ),
        576 <= c.mtu <= 1400 && c.tun_prefix <= 32 && c.datagram_buffer_bytes >= 65536 && (
        c.udp_recv_buffer_bytes == 0 || c.udp_recv_buffer_bytes >= 65536) && 0
            < c.udp_send_buffer_bytes < 65536 ==> spec_validate_client(c) == Err::<(), ConfigError>(
            ConfigError::UdpSendBufferTooSmall,
        ),
{
}

/// A server configuration passes exactly when its shared settings are in
/// range and its tunnel name and external interface are not blank. With the
/// MTU, prefix and datagram buffer in range, a UDP receive buffer of 1 byte
/// to just under 64 KiB is refused as such, and otherwise a UDP send buffer
/// of that size is.
pub proof fn lemma_server_verdict(c: ServerConfig)
    ensures
        spec_validate_server(c) is Ok <==> shared_settings_in_range(
            c.mtu,
            c.tun_prefix,
            c.datagram_buffer_bytes,
            c.udp_recv_buffer_bytes,
            c.udp_send_buffer_bytes,
        ) && !is_blank(c.tun_name@) && !is_blank(c.external_interface@),
        576 <= c.mtu <= 1400 && c.tun_prefix <= 32 && c.datagram_buffer_bytes >= 65536 && 0
            < c.udp_recv_buffer_bytes < 65536 ==> spec_validate_server(c) == Err::<(), ConfigError>(
            ConfigError::UdpRecvBufferTooSmall,
        ),
        576 <= c.mtu <= 1400 && c.tun_prefix <= 32 && c.datagram_buffer_bytes >= 65536 && (
        c.udp_recv_buffer_bytes == 0 || c.udp_recv_buffer_bytes >= 65536) && 0
            < c.udp_send_buffer_bytes < 65536 ==> spec_validate_server(c) == Err::<(), ConfigError>(
            ConfigError::UdpSendBufferTooSmall,
        ),
{
}

/// The default settings pass validation, on both sides.
pub proof fn lemma_defaults_are_valid(s: ServerConfig, c: ClientConfig)
    requires
        is_default_server(s),
        is_default_client(c),
    ensures
        spec_validate_server(s) == Ok::<(), ConfigError>(()),
        spec_validate_client(c) == Ok::<(), ConfigError>(()),
{
    reveal_strlit("tun0");
    reveal_strlit("ens3");
    reveal_strlit("127.0.0.1:443");
    reveal_strlit("litevpn.local");
    assert(!is_space(s.tun_name@[0]));
    assert(!is_space(s.external_interface@[0]));
    assert(!is_space(c.server@[0]));
    assert(!is_space(c.server_name@[0]));
}

// ---------------------------------------------------------------------------
// The client token
// ---------------------------------------------------------------------------

/// The token held in a token file: the text without surrounding white
/// space, refused when shorter than 32 bytes.
pub open spec fn spec_parse_token(raw: Seq<char>) -> Result<Seq<char>, ConfigError> {
    if encode_utf8(trim(raw)).len() < 32 {
        Err(ConfigError::TokenTooShort)
    } else {
        Ok(trim(raw))
    }
}

/// The token held in the text of a token file.
pub fn parse_token(raw: &str) -> (r: Result<String, ConfigError>)
    ensures
        match r {
            Ok(t) => spec_parse_token(raw@) == Ok::<Seq<char>, ConfigError>(t@),
            Err(e) => spec_parse_token(raw@) == Err::<Seq<char>, ConfigError>(e),
        },
{
    let token = trim_to_string(raw);
    let len = token.as_str().as_bytes().len();
    if len < 32 {
        return Err(ConfigError::TokenTooShort);
    }
    Ok(token)
}

} // verus!
