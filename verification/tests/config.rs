use litevpn::config::{
    parse_token, validate_common, validate_udp_socket_buffers, ClientConfig, ConfigError,
    CongestionController, ServerConfig,
};

#[test]
fn server_defaults() {
    let c = ServerConfig::default();
    assert_eq!(c.listen, "0.0.0.0:443");
    assert_eq!(c.tun_name, "tun0");
    assert_eq!(c.tun_ip, [10, 66, 0, 1]);
    assert_eq!(c.client_ip, [10, 66, 0, 2]);
    assert_eq!(c.tun_prefix, 24);
    assert_eq!(c.mtu, 1300);
    assert_eq!(c.cert_path, "/etc/litevpn/server.crt");
    assert_eq!(c.key_path, "/etc/litevpn/server.key");
    assert_eq!(c.auth_token_path, "/etc/litevpn/client.token");
    assert_eq!(c.external_interface, "ens3");
    assert_eq!(c.datagram_buffer_bytes, 4 * 1024 * 1024);
    assert!(!c.enable_linux_offload);
    assert_eq!(c.tx_queue_len, Some(10_000));
    assert_eq!(c.congestion_controller, CongestionController::Cubic);
    assert_eq!(c.udp_recv_buffer_bytes, 0);
    assert_eq!(c.udp_send_buffer_bytes, 0);
    assert_eq!(c.validate(), Ok(()));
}

#[test]
fn client_defaults() {
    let c = ClientConfig::default();
    assert_eq!(c.server, "127.0.0.1:443");
    assert_eq!(c.server_name, "litevpn.local");
    assert_eq!(c.tun_name, "");
    assert_eq!(c.client_ip, [10, 66, 0, 2]);
    assert_eq!(c.server_tun_ip, [10, 66, 0, 1]);
    assert_eq!(c.ca_cert_path, "./config/server.crt");
    assert_eq!(c.auth_token_path, "./config/client.token");
    assert!(c.route_all);
    assert_eq!(c.dns, vec!["1.1.1.1".to_string(), "8.8.8.8".to_string()]);
    assert_eq!(c.validate(), Ok(()));
    assert_eq!(CongestionController::default(), CongestionController::Cubic);
}

#[test]
fn common_limits() {
    assert_eq!(validate_common(575, 24, 65536), Err(ConfigError::MtuTooSmall));
    assert_eq!(validate_common(576, 24, 65536), Ok(()));
    assert_eq!(validate_common(1400, 32, 65536), Ok(()));
    assert_eq!(validate_common(1401, 24, 65536), Err(ConfigError::MtuTooLarge));
    assert_eq!(validate_common(1300, 33, 65536), Err(ConfigError::PrefixTooLong));
    assert_eq!(validate_common(1300, 24, 65535), Err(ConfigError::DatagramBufferTooSmall));
    assert_eq!(validate_common(100, 40, 0), Err(ConfigError::MtuTooSmall));
}

#[test]
fn socket_buffer_limits() {
    assert_eq!(validate_udp_socket_buffers(0, 0), Ok(()));
    assert_eq!(validate_udp_socket_buffers(65536, 1 << 20), Ok(()));
    assert_eq!(validate_udp_socket_buffers(65535, 0), Err(ConfigError::UdpRecvBufferTooSmall));
    assert_eq!(validate_udp_socket_buffers(0, 1), Err(ConfigError::UdpSendBufferTooSmall));
    assert_eq!(validate_udp_socket_buffers(1, 1), Err(ConfigError::UdpRecvBufferTooSmall));
}

#[test]
fn server_blank_names() {
    let mut c = ServerConfig::default();
    c.tun_name = " \t\u{a0}".to_string();
    assert_eq!(c.validate(), Err(ConfigError::TunNameEmpty));
    let mut c = ServerConfig::default();
    c.external_interface = String::new();
    assert_eq!(c.validate(), Err(ConfigError::ExternalInterfaceEmpty));
    let mut c = ServerConfig::default();
    c.udp_send_buffer_bytes = 10;
    c.tun_name = String::new();
    assert_eq!(c.validate(), Err(ConfigError::UdpSendBufferTooSmall));
}

#[test]
fn client_blank_names() {
    let mut c = ClientConfig::default();
    c.server = "  ".to_string();
    assert_eq!(c.validate(), Err(ConfigError::ServerEmpty));
    let mut c = ClientConfig::default();
    c.server_name = "\u{3000}".to_string();
    assert_eq!(c.validate(), Err(ConfigError::ServerNameEmpty));
    let mut c = ClientConfig::default();
    c.mtu = 2000;
    assert_eq!(c.validate(), Err(ConfigError::MtuTooLarge));
}

#[test]
fn token_trimmed_and_checked() {
    let t = "0123456789abcdef0123456789abcdef";
    assert_eq!(parse_token(&format!("  {t}\r\n")), Ok(t.to_string()));
    assert_eq!(parse_token(&t[..31]), Err(ConfigError::TokenTooShort));
    assert_eq!(parse_token(&format!("\u{2003}{}\n", &t[..31])), Err(ConfigError::TokenTooShort));
    assert_eq!(parse_token(""), Err(ConfigError::TokenTooShort));
    let wide = "\u{e9}".repeat(16);
    assert_eq!(parse_token(&wide), Ok(wide.clone()));
}
