use litevpn::auth::{
    auth_reply, authorize_request, check_auth_response, encode_auth_request, parse_mode,
    parse_request, AuthError, AuthMode, BenchDirection,
};
use litevpn::{AUTH_ERR, AUTH_MAGIC, AUTH_OK};

#[test]
fn parses_token() {
    let mut req = AUTH_MAGIC.to_vec();
    req.extend_from_slice(b"abcdef\n");
    assert_eq!(parse_request(&req).unwrap(), ("abcdef", AuthMode::Vpn));
}

#[test]
fn parses_bench_mode() {
    let mut req = AUTH_MAGIC.to_vec();
    req.extend_from_slice(b"abcdef\nbench download 3 1200\n");
    assert_eq!(
        parse_request(&req).unwrap(),
        (
            "abcdef",
            AuthMode::Bench {
                direction: BenchDirection::Download,
                duration_secs: 3,
                payload_bytes: 1200,
                target_mbps: None
            }
        )
    );
}

#[test]
fn parses_bench_target_mbps() {
    let mut req = AUTH_MAGIC.to_vec();
    req.extend_from_slice(b"abcdef\nbench upload 5 1162 40\n");
    assert_eq!(
        parse_request(&req).unwrap(),
        (
            "abcdef",
            AuthMode::Bench {
                direction: BenchDirection::Upload,
                duration_secs: 5,
                payload_bytes: 1162,
                target_mbps: Some(40)
            }
        )
    );
}

#[test]
fn parses_stream_bench_mode() {
    let mut req = AUTH_MAGIC.to_vec();
    req.extend_from_slice(b"abcdef\nbench stream-upload 5 1300 40\n");
    assert_eq!(
        parse_request(&req).unwrap(),
        (
            "abcdef",
            AuthMode::Bench {
                direction: BenchDirection::StreamUpload,
                duration_secs: 5,
                payload_bytes: 1300,
                target_mbps: Some(40)
            }
        )
    );
}

#[test]
fn parses_stream_packet_bench_mode() {
    let mut req = AUTH_MAGIC.to_vec();
    req.extend_from_slice(b"abcdef\nbench stream-packet-download 5 1300 40\n");
    assert_eq!(
        parse_request(&req).unwrap(),
        (
            "abcdef",
            AuthMode::Bench {
                direction: BenchDirection::StreamPacketDownload,
                duration_secs: 5,
                payload_bytes: 1300,
                target_mbps: Some(40)
            }
        )
    );
}

#[test]
fn rejects_bad_magic() {
    assert!(parse_request(b"bad token\n").is_err());
}

fn request(body: &[u8]) -> Vec<u8> {
    let mut req = AUTH_MAGIC.to_vec();
    req.extend_from_slice(body);
    req
}

#[test]
fn magic_spells_lvpn1() {
    assert_eq!(&AUTH_MAGIC[..], b"LVPN1 ");
    assert_eq!(&AUTH_OK[..], b"OK\n");
    assert_eq!(&AUTH_ERR[..], b"ERR\n");
    assert_eq!(&litevpn::ALPN[..], b"litevpn/1");
}

#[test]
fn direction_names() {
    assert_eq!(BenchDirection::Upload.as_str(), "upload");
    assert_eq!(BenchDirection::Download.as_str(), "download");
    assert_eq!(BenchDirection::StreamUpload.as_str(), "stream-upload");
    assert_eq!(BenchDirection::StreamDownload.as_str(), "stream-download");
    assert_eq!(BenchDirection::StreamPacketUpload.as_str(), "stream-packet-upload");
    assert_eq!(BenchDirection::StreamPacketDownload.as_str(), "stream-packet-download");
    assert!(BenchDirection::Upload.uses_datagrams());
    assert!(BenchDirection::Download.uses_datagrams());
    assert!(!BenchDirection::StreamUpload.uses_datagrams());
    assert!(!BenchDirection::StreamPacketDownload.uses_datagrams());
}

#[test]
fn request_errors_in_order() {
    assert_eq!(parse_request(b"LVPN1").unwrap_err(), AuthError::InvalidMagic);
    assert_eq!(parse_request(&request(&[0xff, b'\n'])).unwrap_err(), AuthError::NotUtf8);
    assert_eq!(parse_request(&request(b"abcdef")).unwrap_err(), AuthError::MissingNewline);
    assert_eq!(parse_request(&request(b"")).unwrap_err(), AuthError::MissingNewline);
    assert_eq!(parse_request(&request(b"\n")).unwrap_err(), AuthError::MissingToken);
    assert_eq!(
        parse_request(&request(b"abc\nbench upload 5 100\nextra\n")).unwrap_err(),
        AuthError::TooManyLines
    );
    assert_eq!(
        parse_request(&request(b"abc\nvpn\nextra\n")).unwrap_err(),
        AuthError::UnknownMode
    );
}

#[test]
fn request_line_endings() {
    assert_eq!(parse_request(&request(b"abc\n\n")).unwrap(), ("abc", AuthMode::Vpn));
    assert_eq!(parse_request(&request(b"abc\r\n")).unwrap(), ("abc\r", AuthMode::Vpn));
    assert_eq!(
        parse_request(&request(b"abc\r\nbench download 3 1200\r\n")).unwrap(),
        (
            "abc",
            AuthMode::Bench {
                direction: BenchDirection::Download,
                duration_secs: 3,
                payload_bytes: 1200,
                target_mbps: None
            }
        )
    );
    assert_eq!(
        parse_request(&request(b"\nbench upload 1 64\n")).unwrap(),
        (
            "",
            AuthMode::Bench {
                direction: BenchDirection::Upload,
                duration_secs: 1,
                payload_bytes: 64,
                target_mbps: None
            }
        )
    );
    assert_eq!(
        parse_request(&request("t\u{f6}ken\n".as_bytes())).unwrap(),
        ("t\u{f6}ken", AuthMode::Vpn)
    );
}

#[test]
fn mode_errors() {
    assert_eq!(parse_mode(""), Err(AuthError::UnknownMode));
    assert_eq!(parse_mode("benchmark upload 1 64"), Err(AuthError::UnknownMode));
    assert_eq!(parse_mode("bench"), Err(AuthError::InvalidDirection));
    assert_eq!(parse_mode("bench sideways 1 64"), Err(AuthError::InvalidDirection));
    assert_eq!(parse_mode("bench upload"), Err(AuthError::MissingDuration));
    assert_eq!(parse_mode("bench upload x 64"), Err(AuthError::InvalidDuration));
    assert_eq!(parse_mode("bench upload -1 64"), Err(AuthError::InvalidDuration));
    assert_eq!(parse_mode("bench upload 1"), Err(AuthError::MissingPayloadSize));
    assert_eq!(parse_mode("bench upload 1 6x4"), Err(AuthError::InvalidPayloadSize));
    assert_eq!(parse_mode("bench upload 1 64 fast"), Err(AuthError::InvalidTargetMbps));
    assert_eq!(parse_mode("bench upload 1 64 10 more"), Err(AuthError::TooManyFields));
    assert_eq!(parse_mode("bench upload 0 64"), Err(AuthError::ZeroDuration));
    assert_eq!(parse_mode("bench upload 1 63"), Err(AuthError::PayloadSizeOutOfRange));
    assert_eq!(parse_mode("bench upload 1 1453"), Err(AuthError::PayloadSizeOutOfRange));
    assert_eq!(
        parse_mode("bench upload 18446744073709551616 64"),
        Err(AuthError::InvalidDuration)
    );
}

#[test]
fn mode_number_forms() {
    let bench = |d: u64, p: usize, t: Option<u64>| AuthMode::Bench {
        direction: BenchDirection::Upload,
        duration_secs: d,
        payload_bytes: p,
        target_mbps: t,
    };
    assert_eq!(parse_mode("bench upload +7 1452 0"), Ok(bench(7, 1452, None)));
    assert_eq!(parse_mode("  bench\tupload  007 64  "), Ok(bench(7, 64, None)));
    assert_eq!(parse_mode("bench\u{3000}upload 1 64 18446744073709551615"), Ok(bench(1, 64, Some(u64::MAX))));
    assert_eq!(parse_mode("bench upload + 64"), Err(AuthError::InvalidDuration));
}

#[test]
fn encodes_vpn_request() {
    assert_eq!(encode_auth_request("tok", AuthMode::Vpn), b"LVPN1 tok\n".to_vec());
}

#[test]
fn encodes_bench_request() {
    let mode = AuthMode::Bench {
        direction: BenchDirection::StreamPacketUpload,
        duration_secs: 10,
        payload_bytes: 1300,
        target_mbps: Some(13),
    };
    assert_eq!(
        encode_auth_request("tok", mode),
        b"LVPN1 tok\nbench stream-packet-upload 10 1300 13\n".to_vec()
    );
    let unlimited = AuthMode::Bench {
        direction: BenchDirection::Download,
        duration_secs: 3,
        payload_bytes: 1200,
        target_mbps: None,
    };
    assert_eq!(
        encode_auth_request("tok", unlimited),
        b"LVPN1 tok\nbench download 3 1200 0\n".to_vec()
    );
}

#[test]
fn request_round_trips_through_parser() {
    let mode = AuthMode::Bench {
        direction: BenchDirection::StreamDownload,
        duration_secs: 5,
        payload_bytes: 64,
        target_mbps: Some(0),
    };
    let req = encode_auth_request("s3cr\u{e9}t", mode);
    let normalized = AuthMode::Bench {
        direction: BenchDirection::StreamDownload,
        duration_secs: 5,
        payload_bytes: 64,
        target_mbps: None,
    };
    assert_eq!(parse_request(&req).unwrap(), ("s3cr\u{e9}t", normalized));
    let req = encode_auth_request("abc", AuthMode::Vpn);
    assert_eq!(parse_request(&req).unwrap(), ("abc", AuthMode::Vpn));
}

#[test]
fn server_verdicts() {
    let req = encode_auth_request("right", AuthMode::Vpn);
    assert_eq!(authorize_request(&req, "right"), Ok(AuthMode::Vpn));
    assert_eq!(authorize_request(&req, "wrong"), Err(AuthError::InvalidToken));
    assert_eq!(authorize_request(b"nope\n", "right"), Err(AuthError::InvalidMagic));
    assert_eq!(auth_reply(&Ok(AuthMode::Vpn)), Some(b"OK\n".to_vec()));
    assert_eq!(auth_reply(&Err(AuthError::InvalidToken)), Some(b"ERR\n".to_vec()));
    assert_eq!(auth_reply(&Err(AuthError::InvalidMagic)), None);
}

#[test]
fn client_reads_reply() {
    assert_eq!(check_auth_response(b"OK\n"), Ok(()));
    assert_eq!(check_auth_response(b"ERR\n"), Err(AuthError::Rejected));
    assert_eq!(check_auth_response(b"OK"), Err(AuthError::Rejected));
    assert_eq!(check_auth_response(b"OK\n\n"), Err(AuthError::Rejected));
    let reply = auth_reply(&authorize_request(&encode_auth_request("a", AuthMode::Vpn), "a")).unwrap();
    assert_eq!(check_auth_response(&reply), Ok(()));
    let reply = auth_reply(&authorize_request(&encode_auth_request("a", AuthMode::Vpn), "b")).unwrap();
    assert_eq!(check_auth_response(&reply), Err(AuthError::Rejected));
}
