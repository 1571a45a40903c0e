use litevpn::transport::transport_tuning;

#[test]
fn tunnel_transport_settings() {
    let t = transport_tuning(4 * 1024 * 1024);
    assert_eq!(t.max_concurrent_bidi_streams, 4);
    assert_eq!(t.max_concurrent_uni_streams, 0);
    assert_eq!(t.keep_alive_interval_secs, 5);
    assert_eq!(t.max_idle_timeout_secs, 30);
    assert_eq!(t.initial_mtu, 1200);
    assert_eq!(t.receive_window, 8_388_608);
    assert_eq!(t.stream_receive_window, 524_288);
    assert_eq!(t.send_window, 8_388_608);
    assert!(t.segmentation_offload);
    assert!(!t.send_fairness);
    assert_eq!(t.datagram_receive_buffer_bytes, 4_194_304);
    assert_eq!(t.datagram_send_buffer_bytes, 4_194_304);
}
