//! The QUIC transport settings that both endpoints use.
use vstd::prelude::*;

verus! {

/// Flow-control windows, timers and buffers of a QUIC connection.
#[derive(Debug, Clone, Copy, PartialEq, Eq, Structural)]
pub struct TransportTuning {
    /// Bidirectional streams the peer may open at once.
    pub max_concurrent_bidi_streams: u8,
    /// Unidirectional streams the peer may open at once.
    pub max_concurrent_uni_streams: u8,
    /// Seconds between keep-alive packets on an idle connection.
    pub keep_alive_interval_secs: u64,
    /// Seconds of silence after which the connection is dropped.
    pub max_idle_timeout_secs: u64,
    /// Packet size used before the path MTU is discovered.
    pub initial_mtu: u16,
    /// Bytes the peer may send on the whole connection before it is acknowledged.
    pub receive_window: u32,
    /// Bytes the peer may send on one stream before it is acknowledged.
    pub stream_receive_window: u32,
    /// Bytes this side may have in flight.
    pub send_window: u64,
    /// Whether the operating system may split large sends into packets.
    pub segmentation_offload: bool,
    /// Whether streams take turns when sending.
    pub send_fairness: bool,
    /// Bytes of incoming datagrams held before the application reads them.
    pub datagram_receive_buffer_bytes: usize,
    /// Bytes of outgoing datagrams held before they are sent.
    pub datagram_send_buffer_bytes: usize,
}

/// The settings for datagram buffers of `datagram_buffer_bytes` each way.
pub open spec fn spec_transport_tuning(datagram_buffer_bytes: usize) -> TransportTuning {
    TransportTuning {
        max_concurrent_bidi_streams: 4,
        max_concurrent_uni_streams: 0,
        keep_alive_interval_secs: 5,
        max_idle_timeout_secs: 30,
        initial_mtu: 1200,
        receive_window: 8_388_608,
        stream_receive_window: 524_288,
        send_window: 8_388_608,
        segmentation_offload: true,
        send_fairness: false,
        datagram_receive_buffer_bytes: datagram_buffer_bytes,
        datagram_send_buffer_bytes: datagram_buffer_bytes,
    }
}

/// The transport settings of a tunnel connection whose datagram buffers hold
/// `datagram_buffer_bytes` each way.
pub fn transport_tuning(datagram_buffer_bytes: usize) -> (t: TransportTuning)
    ensures
        t == spec_transport_tuning(datagram_buffer_bytes),
{
    TransportTuning {
        max_concurrent_bidi_streams: 4,
        max_concurrent_uni_streams: 0,
        keep_alive_interval_secs: 5,
        max_idle_timeout_secs: 30,
        initial_mtu: 1200,
        receive_window: 8 * 1024 * 1024,
        stream_receive_window: 512 * 1024,
        send_window: 8 * 1024 * 1024,
        segmentation_offload: true,
        send_fairness: false,
        datagram_receive_buffer_bytes: datagram_buffer_bytes,
        datagram_send_buffer_bytes: datagram_buffer_bytes,
    }
}

} // verus!
