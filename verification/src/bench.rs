//! The server's side of a benchmark: the payload size it sends and the
//! summary line it reports when the run ends.
use vstd::prelude::*;

use crate::auth::BenchDirection;
use crate::quic::{
    ConnectionStats, append_stats_summary, max_datagram_size, read_stats, sat_add, spec_stats_summary,
};
use crate::text::{append_decimal, decimal};

verus! {

/// How the benchmark payload travels.
#[derive(Debug, Clone, Copy, PartialEq, Eq, Structural)]
pub enum BenchTransport {
    /// QUIC datagrams.
    Datagram,
    /// A unidirectional QUIC stream of raw bytes.
    Stream,
    /// A unidirectional QUIC stream of framed packets.
    FramedStream,
}

/// What the server does for a benchmark direction.
#[derive(Debug, Clone, Copy, PartialEq, Eq, Structural)]
pub struct BenchPlan {
    /// The client sends and the server counts (otherwise the server sends).
    pub upload: bool,
    pub transport: BenchTransport,
}

/// The server's plan for a benchmark in `direction`.
pub open spec fn spec_bench_plan(direction: BenchDirection) -> BenchPlan {
    match direction {
        BenchDirection::Upload => BenchPlan { upload: true, transport: BenchTransport::Datagram },
        BenchDirection::Download => BenchPlan { upload: false, transport: BenchTransport::Datagram },
        BenchDirection::StreamUpload => BenchPlan { upload: true, transport: BenchTransport::Stream },
        BenchDirection::StreamDownload => BenchPlan {
            upload: false,
            transport: BenchTransport::Stream,
        },
        BenchDirection::StreamPacketUpload => BenchPlan {
            upload: true,
            transport: BenchTransport::FramedStream,
        },
        BenchDirection::StreamPacketDownload => BenchPlan {
            upload: false,
            transport: BenchTransport::FramedStream,
        },
    }
}

/// Chooses which side sends and over what, for a benchmark in `direction`.
pub fn bench_plan(direction: BenchDirection) -> (p: BenchPlan)
    ensures
        p == spec_bench_plan(direction),
        (p.transport == BenchTransport::Datagram) == (direction == BenchDirection::Upload
            || direction == BenchDirection::Download),
{
    match direction {
        BenchDirection::Upload => BenchPlan { upload: true, transport: BenchTransport::Datagram },
        BenchDirection::Download => BenchPlan { upload: false, transport: BenchTransport::Datagram },
        BenchDirection::StreamUpload => BenchPlan { upload: true, transport: BenchTransport::Stream },
        BenchDirection::StreamDownload => BenchPlan {
            upload: false,
            transport: BenchTransport::Stream,
        },
        BenchDirection::StreamPacketUpload => BenchPlan {
            upload: true,
            transport: BenchTransport::FramedStream,
        },
        BenchDirection::StreamPacketDownload => BenchPlan {
            upload: false,
            transport: BenchTransport::FramedStream,
        },
    }
}

/// The payload size of a download benchmark: the requested size, capped by
/// the connection's largest datagram when it has one.
pub open spec fn spec_download_payload(max_datagram_size: Option<usize>, requested: usize) -> usize {
    match max_datagram_size {
        Some(m) => if m < requested {
            m
        } else {
            requested
        },
        None => requested,
    }
}

/// The download payload is the smaller of the requested size and the
/// connection's largest datagram: never above either, and equal to one of
/// them.
pub proof fn lemma_download_payload_is_min(max_datagram_size: Option<usize>, requested: usize)
    ensures
        spec_download_payload(max_datagram_size, requested) <= requested,
        max_datagram_size matches Some(m) ==> spec_download_payload(max_datagram_size, requested)
            <= m,
        spec_download_payload(max_datagram_size, requested) == requested || (
        max_datagram_size matches Some(m) && spec_download_payload(max_datagram_size, requested)
            == m),
{
}

/// The payload size of a download benchmark when the connection's largest
/// datagram is `max_datagram_size`.
pub fn download_payload_bytes(max_datagram_size: Option<usize>, requested: usize) -> (n: usize)
    ensures
        n == spec_download_payload(max_datagram_size, requested),
{
    match max_datagram_size {
        Some(m) => if m < requested {
            m
        } else {
            requested
        },
        None => requested,
    }
}

/// The payload size of a download benchmark on `connection`, against its
/// largest datagram as it reports it now; never above the requested size.
pub fn download_payload_size(connection: &quinn::Connection, requested: usize) -> (n: usize)
    ensures
        exists|max: Option<usize>| n == #[trigger] spec_download_payload(max, requested),
        n <= requested,
{
    let max = max_datagram_size(connection);
    let n = download_payload_bytes(max, requested);
    assert(n == spec_download_payload(max, requested));
    n
}

/// The target rate as the summary shows it.
pub open spec fn target_text(target_mbps: Option<u64>) -> Seq<char> {
    match target_mbps {
        Some(v) => decimal(v as nat),
        None => "unlimited"@,
    }
}

/// Figures of a finished benchmark run.
#[derive(Debug, Clone, Copy, PartialEq, Eq, Structural)]
pub struct BenchTotals {
    pub elapsed_ms: u128,
    pub measured_elapsed_ms: u128,
    pub bytes: u64,
    pub packets: u64,
    pub payload_bytes: usize,
    pub target_mbps: Option<u64>,
}

/// The summary line the server sends after a benchmark run.
pub open spec fn spec_bench_summary(
    direction: Seq<char>,
    t: BenchTotals,
    stats: ConnectionStats,
) -> Seq<char> {
    "LVPNBENCH direction="@ + direction + " bytes="@ + decimal(t.bytes as nat) + " packets="@
        + decimal(t.packets as nat) + " payload_bytes="@ + decimal(t.payload_bytes as nat)
        + " target_mbps="@ + target_text(t.target_mbps) + " elapsed_ms="@ + decimal(
        t.elapsed_ms as nat,
    ) + " measured_elapsed_ms="@ + decimal(t.measured_elapsed_ms as nat) + " "@
        + spec_stats_summary(stats) + "\n"@
}

// ---------------------------------------------------------------------------
// Counting a run
// ---------------------------------------------------------------------------

/// Packets and bytes a benchmark run has moved so far.
#[derive(Debug, Clone, Copy, PartialEq, Eq, Structural)]
pub struct BenchCount {
    pub packets: u64,
    pub bytes: u64,
}

/// What the server's receiving side of an upload benchmark got next.
#[derive(Debug, Clone, Copy, PartialEq, Eq, Structural)]
pub enum UploadEvent {
    /// A packet (a datagram, or one read from the stream) of this many bytes.
    Data(u64),
    /// The client finished its stream.
    End,
    /// The listening time ran out.
    TimedOut,
}

/// A run that has moved nothing yet.
pub fn empty_count() -> (c: BenchCount)
    ensures
        c.packets == 0,
        c.bytes == 0,
{
    BenchCount { packets: 0, bytes: 0 }
}

/// The count after one more packet of `n` bytes (saturating).
pub fn count_packet(c: BenchCount, n: u64) -> (r: BenchCount)
    ensures
        r.packets == sat_add(c.packets, 1),
        r.bytes == sat_add(c.bytes, n),
{
    BenchCount { packets: c.packets.saturating_add(1), bytes: c.bytes.saturating_add(n) }
}

/// How many seconds the server listens during an upload benchmark of
/// `duration_secs`: one second more, to take in what is still in flight.
pub fn upload_listen_secs(duration_secs: u64) -> (s: u64)
    ensures
        s == sat_add(duration_secs, 1),
{
    duration_secs.saturating_add(1)
}

/// One step of an upload benchmark: a packet is counted and listening goes
/// on; the end of the stream or of the listening time stops the run.
pub fn upload_step(c: BenchCount, e: UploadEvent) -> (r: (BenchCount, bool))
    ensures
        e matches UploadEvent::Data(n) ==> r.1 && r.0.packets == sat_add(c.packets, 1) && r.0.bytes
            == sat_add(c.bytes, n),
        !(e is Data) ==> !r.1 && r.0 == c,
{
    match e {
        UploadEvent::Data(n) => (count_packet(c, n), true),
        UploadEvent::End => (c, false),
        UploadEvent::TimedOut => (c, false),
    }
}

/// One step of a stream download benchmark after a write took `written`
/// bytes: a write of nothing stops the run, any other is counted.
pub fn stream_download_step(c: BenchCount, written: u64) -> (r: (BenchCount, bool))
    ensures
        written == 0 ==> !r.1 && r.0 == c,
        written > 0 ==> r.1 && r.0.packets == sat_add(c.packets, 1) && r.0.bytes == sat_add(
            c.bytes,
            written,
        ),
{
    if written == 0 {
        (c, false)
    } else {
        (count_packet(c, written), true)
    }
}

/// The figures of a finished upload benchmark. The rate is measured over
/// the requested duration, not over the extra listening time: the measured
/// time is `duration_secs` seconds, the elapsed time is the wall clock's.
pub fn upload_totals(
    duration_secs: u64,
    elapsed_ms: u128,
    c: BenchCount,
    payload_bytes: usize,
    target_mbps: Option<u64>,
) -> (t: BenchTotals)
    ensures
        t.measured_elapsed_ms == duration_secs as u128 * 1000,
        t.elapsed_ms == elapsed_ms,
        t.bytes == c.bytes,
        t.packets == c.packets,
        t.payload_bytes == payload_bytes,
        t.target_mbps == target_mbps,
{
    BenchTotals {
        elapsed_ms,
        measured_elapsed_ms: (duration_secs as u128) * 1000,
        bytes: c.bytes,
        packets: c.packets,
        payload_bytes,
        target_mbps,
    }
}

/// The figures of a finished download benchmark: measured over the whole
/// time the server sent.
pub fn download_totals(
    elapsed_ms: u128,
    c: BenchCount,
    payload_bytes: usize,
    target_mbps: Option<u64>,
) -> (t: BenchTotals)
    ensures
        t.measured_elapsed_ms == elapsed_ms,
        t.elapsed_ms == elapsed_ms,
        t.bytes == c.bytes,
        t.packets == c.packets,
        t.payload_bytes == payload_bytes,
        t.target_mbps == target_mbps,
{
    BenchTotals {
        elapsed_ms,
        measured_elapsed_ms: elapsed_ms,
        bytes: c.bytes,
        packets: c.packets,
        payload_bytes,
        target_mbps,
    }
}

/// Builds the summary line of a benchmark run in `direction`.
pub fn bench_summary(direction: &str, t: &BenchTotals, stats: &ConnectionStats) -> (r: String)
    ensures
        r@ == spec_bench_summary(direction@, *t, *stats),
{
    let mut out = String::new();
    out.append("LVPNBENCH direction=");
    out.append(direction);
    let ghost p0 = "LVPNBENCH direction="@ + direction@;
    assert(out@ =~= p0);
    out.append(" bytes=");
    append_decimal(&mut out, t.bytes as u128);
    let ghost p1 = p0 + " bytes="@ + decimal(t.bytes as nat);
    assert(out@ =~= p1);
    out.append(" packets=");
    append_decimal(&mut out, t.packets as u128);
    let ghost p2 = p1 + " packets="@ + decimal(t.packets as nat);
    assert(out@ =~= p2);
    out.append(" payload_bytes=");
    append_decimal(&mut out, t.payload_bytes as u128);
    let ghost p3 = p2 + " payload_bytes="@ + decimal(t.payload_bytes as nat);
    assert(out@ =~= p3);
    out.append(" target_mbps=");
    match t.target_mbps {
        Some(v) => append_decimal(&mut out, v as u128),
        None => out.append("unlimited"),
    }
    let ghost p4 = p3 + " target_mbps="@ + target_text(t.target_mbps);
    assert(out@ =~= p4);
    out.append(" elapsed_ms=");
    append_decimal(&mut out, t.elapsed_ms);
    let ghost p5 = p4 + " elapsed_ms="@ + decimal(t.elapsed_ms as nat);
    assert(out@ =~= p5);
    out.append(" measured_elapsed_ms=");
    append_decimal(&mut out, t.measured_elapsed_ms);
    let ghost p6 = p5 + " measured_elapsed_ms="@ + decimal(t.measured_elapsed_ms as nat);
    assert(out@ =~= p6);
    out.append(" ");
    append_stats_summary(&mut out, stats);
    let ghost p7 = p6 + " "@ + spec_stats_summary(*stats);
    assert(out@ =~= p7);
    out.append("\n");
    let ghost p8 = p7 + "\n"@;
    assert(out@ =~= p8);
    out
}

/// Builds the summary line of a benchmark run in `direction` on
/// `connection`, with its counters as it reports them now.
pub fn connection_bench_summary(direction: &str, t: &BenchTotals, connection: &quinn::Connection) -> (r:
    String)
    ensures
        exists|s: ConnectionStats| r@ == #[trigger] spec_bench_summary(direction@, *t, s),
{
    let stats = read_stats(connection);
    bench_summary(direction, t, &stats)
}

} // verus!
