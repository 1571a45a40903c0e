use litevpn::auth::BenchDirection;
use litevpn::bench::{
    bench_plan, bench_summary, count_packet, download_payload_bytes, download_totals, empty_count,
    stream_download_step, upload_listen_secs, upload_step, upload_totals, BenchCount, BenchPlan,
    BenchTotals, BenchTransport, UploadEvent,
};
use litevpn::quic::ConnectionStats;

fn stats() -> ConnectionStats {
    ConnectionStats {
        udp_tx_datagrams: 10,
        udp_tx_bytes: 13000,
        udp_rx_datagrams: 2,
        udp_rx_bytes: 80,
        lost_packets: 1,
        lost_bytes: 1300,
        congestion_events: 0,
        cwnd: 9000,
        rtt_secs: 0,
        rtt_subsec_nanos: 41_000_000,
        current_mtu: 1200,
        frame_tx_datagram: 9,
        frame_rx_datagram: 0,
    }
}

#[test]
fn download_payload_is_capped() {
    assert_eq!(download_payload_bytes(Some(1162), 1300), 1162);
    assert_eq!(download_payload_bytes(Some(1400), 1300), 1300);
    assert_eq!(download_payload_bytes(None, 1300), 1300);
}

#[test]
fn summary_with_target() {
    let t = BenchTotals {
        elapsed_ms: 11003,
        measured_elapsed_ms: 10000,
        bytes: 13000,
        packets: 10,
        payload_bytes: 1300,
        target_mbps: Some(36),
    };
    assert_eq!(
        bench_summary("upload", &t, &stats()),
        "LVPNBENCH direction=upload bytes=13000 packets=10 payload_bytes=1300 target_mbps=36 elapsed_ms=11003 measured_elapsed_ms=10000 udp_tx_datagrams=10 udp_tx_bytes=13000 udp_rx_datagrams=2 udp_rx_bytes=80 lost_packets=1 lost_bytes=1300 congestion_events=0 cwnd=9000 rtt_ms=41 current_mtu=1200 frame_tx_datagram=9 frame_rx_datagram=0\n"
    );
}

#[test]
fn summary_unlimited() {
    let t = BenchTotals {
        elapsed_ms: 0,
        measured_elapsed_ms: 0,
        bytes: 0,
        packets: 0,
        payload_bytes: 64,
        target_mbps: None,
    };
    let s = bench_summary("stream-download", &t, &stats());
    assert!(s.starts_with("LVPNBENCH direction=stream-download bytes=0 packets=0 payload_bytes=64 target_mbps=unlimited elapsed_ms=0 measured_elapsed_ms=0 udp_tx_datagrams=10 "));
    assert!(s.ends_with("frame_rx_datagram=0\n"));
}

#[test]
fn plans_per_direction() {
    assert_eq!(bench_plan(BenchDirection::Upload), BenchPlan { upload: true, transport: BenchTransport::Datagram });
    assert_eq!(bench_plan(BenchDirection::Download), BenchPlan { upload: false, transport: BenchTransport::Datagram });
    assert_eq!(bench_plan(BenchDirection::StreamUpload), BenchPlan { upload: true, transport: BenchTransport::Stream });
    assert_eq!(bench_plan(BenchDirection::StreamDownload), BenchPlan { upload: false, transport: BenchTransport::Stream });
    assert_eq!(bench_plan(BenchDirection::StreamPacketUpload), BenchPlan { upload: true, transport: BenchTransport::FramedStream });
    assert_eq!(bench_plan(BenchDirection::StreamPacketDownload), BenchPlan { upload: false, transport: BenchTransport::FramedStream });
}

#[test]
fn upload_counts_until_end_or_timeout() {
    assert_eq!(upload_listen_secs(5), 6);
    assert_eq!(upload_listen_secs(u64::MAX), u64::MAX);
    let c = empty_count();
    let (c, go) = upload_step(c, UploadEvent::Data(1200));
    assert!(go);
    let (c, go) = upload_step(c, UploadEvent::Data(800));
    assert!(go);
    assert_eq!(c, BenchCount { packets: 2, bytes: 2000 });
    assert_eq!(upload_step(c, UploadEvent::End), (c, false));
    assert_eq!(upload_step(c, UploadEvent::TimedOut), (c, false));
    let full = BenchCount { packets: u64::MAX, bytes: u64::MAX - 1 };
    assert_eq!(count_packet(full, 10), BenchCount { packets: u64::MAX, bytes: u64::MAX });
}

#[test]
fn upload_rate_uses_requested_duration() {
    let c = BenchCount { packets: 10, bytes: 13000 };
    let t = upload_totals(5, 6012, c, 1300, Some(40));
    assert_eq!(
        t,
        BenchTotals {
            elapsed_ms: 6012,
            measured_elapsed_ms: 5000,
            bytes: 13000,
            packets: 10,
            payload_bytes: 1300,
            target_mbps: Some(40),
        }
    );
    let d = download_totals(3004, c, 1162, None);
    assert_eq!(d.measured_elapsed_ms, 3004);
    assert_eq!(d.elapsed_ms, 3004);
}

#[test]
fn stream_download_stops_on_empty_write() {
    let c = BenchCount { packets: 3, bytes: 300 };
    assert_eq!(stream_download_step(c, 0), (c, false));
    assert_eq!(stream_download_step(c, 1300), (BenchCount { packets: 4, bytes: 1600 }, true));
}
