use litevpn::quic::{
    check_datagram_capacity, check_tun_write, classify_tun_packet, stats_summary,
    BacklogState, ConnectionStats, DatagramBacklog, LossMonitor, PacketAction, QuicError,
    RateChange,
};

#[test]
fn datagram_capacity() {
    assert_eq!(check_datagram_capacity(None, 1300), Ok(()));
    assert_eq!(check_datagram_capacity(Some(1300), 1300), Ok(()));
    assert_eq!(
        check_datagram_capacity(Some(1162), 1300),
        Err(QuicError::DatagramCapacityTooSmall { max: 1162, mtu: 1300 })
    );
}

#[test]
fn tunnel_packets() {
    assert_eq!(classify_tun_packet(0, Some(1200)), PacketAction::Skip);
    assert_eq!(classify_tun_packet(1201, Some(1200)), PacketAction::DropOversized);
    assert_eq!(classify_tun_packet(1200, Some(1200)), PacketAction::Forward);
    assert_eq!(classify_tun_packet(9000, None), PacketAction::Forward);
    assert_eq!(check_tun_write(10, 10), Ok(()));
    assert_eq!(check_tun_write(9, 10), Err(QuicError::PartialTunWrite { written: 9, len: 10 }));
}

#[test]
fn backlog_waits_then_clears() {
    let mut b = DatagramBacklog::starting_at(100, 2);
    for _ in 0..3 {
        b.record_queued();
    }
    assert_eq!(b.state(100, false), BacklogState::Full);
    assert_eq!(b.state(100, true), BacklogState::TimedOut);
    assert_eq!(b.state(101, false), BacklogState::Clear);
    assert_eq!(b.state(50, false), BacklogState::Full);
}

#[test]
fn backlog_without_cap() {
    let mut b = DatagramBacklog::starting_at(0, 0);
    for _ in 0..1000 {
        b.record_queued();
    }
    assert_eq!(b.state(0, true), BacklogState::Clear);
}

#[test]
fn pacer_reacts_to_loss() {
    let mut m = LossMonitor::new();
    assert_eq!(m.observe(100, 0, 0), RateChange::Hold);
    assert_eq!(m.last_lost_packets, None);
    assert_eq!(m.observe(250, 5, 1), RateChange::Baseline);
    assert_eq!(m.observe(300, 5, 1), RateChange::Increase);
    assert_eq!(m.observe(300, 6, 1), RateChange::Decrease);
    assert_eq!(m.observe(300, 6, 2), RateChange::Decrease);
    assert_eq!(m.observe(249, 100, 100), RateChange::Hold);
    assert_eq!(m.last_lost_packets, Some(6));
    assert_eq!(m.observe(1000, 6, 2), RateChange::Increase);
}

#[test]
fn stats_report() {
    let s = ConnectionStats {
        udp_tx_datagrams: 1,
        udp_tx_bytes: 22,
        udp_rx_datagrams: 333,
        udp_rx_bytes: 4444,
        lost_packets: 0,
        lost_bytes: 5,
        congestion_events: 6,
        cwnd: 12000,
        rtt_secs: 0,
        rtt_subsec_nanos: 38_900_000,
        current_mtu: 1452,
        frame_tx_datagram: 7,
        frame_rx_datagram: 18446744073709551615,
    };
    assert_eq!(
        stats_summary(&s),
        "udp_tx_datagrams=1 udp_tx_bytes=22 udp_rx_datagrams=333 udp_rx_bytes=4444 lost_packets=0 lost_bytes=5 congestion_events=6 cwnd=12000 rtt_ms=38 current_mtu=1452 frame_tx_datagram=7 frame_rx_datagram=18446744073709551615"
    );
}

#[test]
fn stats_report_rtt_in_whole_milliseconds() {
    let s = ConnectionStats {
        udp_tx_datagrams: 0,
        udp_tx_bytes: 0,
        udp_rx_datagrams: 0,
        udp_rx_bytes: 0,
        lost_packets: 0,
        lost_bytes: 0,
        congestion_events: 0,
        cwnd: 0,
        rtt_secs: 2,
        rtt_subsec_nanos: 5_999_999,
        current_mtu: 0,
        frame_tx_datagram: 0,
        frame_rx_datagram: 0,
    };
    assert!(stats_summary(&s).contains(" rtt_ms=2005 "));
}

#[test]
fn clear_backlog_stays_within_cap() {
    let mut b = DatagramBacklog::starting_at(1000, 4);
    for _ in 0..10 {
        b.record_queued();
    }
    // 10 queued, 5 transmitted: 5 waiting, over the cap of 4.
    assert_eq!(b.state(1005, false), BacklogState::Full);
    // 6 transmitted: 4 waiting, within the cap.
    assert_eq!(b.state(1006, false), BacklogState::Clear);
}
