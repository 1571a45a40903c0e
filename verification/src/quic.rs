//! Decisions of the packet pumps between the tunnel device and the QUIC
//! connection: which packets are forwarded, when the datagram backlog lets
//! the sender go on, how the egress pacer reacts to loss, and the
//! connection statistics report.
use vstd::prelude::*;

use crate::text::{append_decimal, decimal};

verus! {

/// Why a QUIC-side check failed.
#[derive(Debug, Clone, Copy, PartialEq, Eq, Structural)]
pub enum QuicError {
    /// The connection's datagram capacity is below the tunnel MTU.
    DatagramCapacityTooSmall { max: usize, mtu: usize },
    /// The tunnel device took fewer bytes than the packet held.
    PartialTunWrite { written: usize, len: usize },
}

// ---------------------------------------------------------------------------
// The QUIC connection
// ---------------------------------------------------------------------------

/// Lets the functions below take a `quinn::Connection`, whose insides stay
/// hidden.
#[verifier::external_type_specification]
#[verifier::external_body]
pub struct ExConnection(quinn::Connection);

/// Calls `quinn::Connection::max_datagram_size`: the largest datagram the
/// peer takes now, or `None` when datagrams are unsupported or disabled. It
/// follows the path MTU estimate while the connection runs, so no clause
/// states what it returns.
#[verifier::external_body]
pub(crate) fn max_datagram_size(connection: &quinn::Connection) -> (r: Option<usize>) {
    connection.max_datagram_size()
}

/// Calls `quinn::Connection::stats` and copies out the counters this library
/// reads, the round-trip time as whole seconds and the nanoseconds beyond
/// them. The counters move while the connection runs, so no clause states
/// what they hold.
#[verifier::external_body]
pub(crate) fn read_stats(connection: &quinn::Connection) -> (s: ConnectionStats) {
    let stats = connection.stats();
    let (tx, rx, path) = (stats.udp_tx, stats.udp_rx, stats.path);
    ConnectionStats {
        udp_tx_datagrams: tx.datagrams, udp_tx_bytes: tx.bytes,
        udp_rx_datagrams: rx.datagrams, udp_rx_bytes: rx.bytes,
        lost_packets: path.lost_packets, lost_bytes: path.lost_bytes,
        congestion_events: path.congestion_events, cwnd: path.cwnd,
        rtt_secs: path.rtt.as_secs(), rtt_subsec_nanos: path.rtt.subsec_nanos(),
        current_mtu: path.current_mtu,
        frame_tx_datagram: stats.frame_tx.datagram, frame_rx_datagram: stats.frame_rx.datagram,
    }
}

// ---------------------------------------------------------------------------
// Datagram capacity
// ---------------------------------------------------------------------------

/// The outcome of the capacity check for a connection whose largest datagram
/// is `max_datagram_size` (`None` when the peer takes no datagrams).
pub open spec fn spec_datagram_capacity(max_datagram_size: Option<usize>, mtu: usize) -> Result<
    (),
    QuicError,
> {
    match max_datagram_size {
        Some(max) => if max < mtu {
            Err(QuicError::DatagramCapacityTooSmall { max, mtu })
        } else {
            Ok(())
        },
        None => Ok(()),
    }
}

/// Checks that a largest datagram of `max_datagram_size` bytes (when the
/// peer allows datagrams at all) holds a full tunnel packet of `mtu` bytes.
pub fn check_datagram_capacity(max_datagram_size: Option<usize>, mtu: usize) -> (r: Result<
    (),
    QuicError,
>)
    ensures
        r == spec_datagram_capacity(max_datagram_size, mtu),
{
    if let Some(max) = max_datagram_size {
        if max < mtu {
            return Err(QuicError::DatagramCapacityTooSmall { max, mtu });
        }
    }
    Ok(())
}

/// Checks that the connection's largest datagram, as the connection reports
/// it now, holds a full tunnel packet of `mtu` bytes.
pub fn ensure_datagram_capacity(connection: &quinn::Connection, mtu: usize) -> (r: Result<
    (),
    QuicError,
>)
    ensures
        exists|max: Option<usize>| r == #[trigger] spec_datagram_capacity(max, mtu),
{
    let max = max_datagram_size(connection);
    let r = check_datagram_capacity(max, mtu);
    assert(r == spec_datagram_capacity(max, mtu));
    r
}

// ---------------------------------------------------------------------------
// Tunnel packets
// ---------------------------------------------------------------------------

/// What the tunnel-to-QUIC pump does with a packet read from the device.
#[derive(Debug, Clone, Copy, PartialEq, Eq, Structural)]
pub enum PacketAction {
    /// An empty read: nothing to send.
    Skip,
    /// Larger than the connection's datagrams: dropped.
    DropOversized,
    /// Sent as one datagram.
    Forward,
}

/// What becomes of a `len`-byte packet when the connection's largest
/// datagram is `max_datagram_size`.
pub open spec fn spec_packet_action(len: usize, max_datagram_size: Option<usize>) -> PacketAction {
    if len == 0 {
        PacketAction::Skip
    } else if max_datagram_size is Some && len > max_datagram_size->0 {
        PacketAction::DropOversized
    } else {
        PacketAction::Forward
    }
}

/// The capacity check passes exactly when the connection takes no datagrams
/// or its largest datagram holds at least `mtu` bytes; otherwise it reports
/// both sizes.
pub proof fn lemma_capacity_verdict(max_datagram_size: Option<usize>, mtu: usize)
    ensures
        spec_datagram_capacity(max_datagram_size, mtu) is Ok <==> (max_datagram_size is None
            || max_datagram_size->0 >= mtu),
        spec_datagram_capacity(max_datagram_size, mtu) is Err ==> spec_datagram_capacity(
            max_datagram_size,
            mtu,
        ) == Err::<(), QuicError>(
            QuicError::DatagramCapacityTooSmall { max: max_datagram_size->0, mtu },
        ),
{
}

/// Decides the fate of a `len`-byte packet read from the tunnel device.
pub fn classify_tun_packet(len: usize, max_datagram_size: Option<usize>) -> (a: PacketAction)
    ensures
        a == spec_packet_action(len, max_datagram_size),
{
    if len == 0 {
        return PacketAction::Skip;
    }
    if let Some(max) = max_datagram_size {
        if len > max {
            return PacketAction::DropOversized;
        }
    }
    PacketAction::Forward
}

/// Decides the fate of a `len`-byte packet read from the tunnel device, against
/// the connection's largest datagram as it reports it now.
pub fn classify_packet_for(connection: &quinn::Connection, len: usize) -> (a: PacketAction)
    ensures
        exists|max: Option<usize>| a == #[trigger] spec_packet_action(len, max),
        len == 0 ==> a == PacketAction::Skip,
{
    let max = max_datagram_size(connection);
    let a = classify_tun_packet(len, max);
    assert(a == spec_packet_action(len, max));
    a
}

/// An empty read is skipped; a packet is dropped exactly when the connection
/// has a largest datagram and the packet is longer; every other packet is
/// forwarded.
pub proof fn lemma_packet_verdict(len: usize, max_datagram_size: Option<usize>)
    ensures
        spec_packet_action(len, max_datagram_size) == PacketAction::Skip <==> len == 0,
        spec_packet_action(len, max_datagram_size) == PacketAction::DropOversized <==> (len > 0
            && max_datagram_size is Some && len > max_datagram_size->0),
        spec_packet_action(len, max_datagram_size) == PacketAction::Forward <==> (len > 0 && (
        max_datagram_size is None || len <= max_datagram_size->0)),
{
}

/// Checks that the tunnel device took a whole packet.
pub fn check_tun_write(written: usize, len: usize) -> (r: Result<(), QuicError>)
    ensures
        r == (if written == len {
            Ok(())
        } else {
            Err(QuicError::PartialTunWrite { written, len })
        }),
{
    if written != len {
        return Err(QuicError::PartialTunWrite { written, len });
    }
    Ok(())
}

// ---------------------------------------------------------------------------
// Datagram backlog
// ---------------------------------------------------------------------------

/// Counts datagrams handed to QUIC against those it has transmitted, so that
/// a sender can wait while too many are still queued.
pub struct DatagramBacklog {
    baseline_tx_datagrams: u64,
    queued_datagrams: u64,
    max_backlog_packets: u64,
}

/// Where a sender stands against the backlog cap.
#[derive(Debug, Clone, Copy, PartialEq, Eq, Structural)]
pub enum BacklogState {
    /// The backlog is within the cap: go on.
    Clear,
    /// Over the cap and the deadline has passed: give up.
    TimedOut,
    /// Over the cap: wait for transmissions.
    Full,
}

/// `a - b`, or zero when `b` is larger.
pub open spec fn sat_sub(a: u64, b: u64) -> u64 {
    if a >= b {
        (a - b) as u64
    } else {
        0
    }
}

/// `a + b`, or `u64::MAX` when that overflows.
pub open spec fn sat_add(a: u64, b: u64) -> u64 {
    if a + b <= u64::MAX {
        (a + b) as u64
    } else {
        u64::MAX
    }
}

impl DatagramBacklog {
    /// Datagrams the connection had already transmitted when counting began.
    pub closed spec fn baseline(&self) -> u64 {
        self.baseline_tx_datagrams
    }

    /// Datagrams handed to QUIC since counting began.
    pub closed spec fn queued_count(&self) -> u64 {
        self.queued_datagrams
    }

    /// Most datagrams allowed in flight before the sender waits; 0 means no cap.
    pub closed spec fn cap(&self) -> u64 {
        self.max_backlog_packets
    }

    /// Datagrams still queued when the connection reports `tx_datagrams`
    /// transmitted in all.
    pub open spec fn backlog(&self, tx_datagrams: u64) -> u64 {
        sat_sub(self.queued_count(), sat_sub(tx_datagrams, self.baseline()))
    }

    /// Starts counting from the connection's current datagram transmit count.
    pub fn new(connection: &quinn::Connection, max_backlog_packets: u64) -> (b: Self)
        ensures
            b.queued_count() == 0,
            b.cap() == max_backlog_packets,
    {
        let stats = read_stats(connection);
        DatagramBacklog::starting_at(stats.frame_tx_datagram, max_backlog_packets)
    }

    /// Starts counting from a transmit count of `baseline_tx_datagrams`.
    pub fn starting_at(baseline_tx_datagrams: u64, max_backlog_packets: u64) -> (b: Self)
        ensures
            b.baseline() == baseline_tx_datagrams,
            b.queued_count() == 0,
            b.cap() == max_backlog_packets,
    {
        DatagramBacklog { baseline_tx_datagrams, queued_datagrams: 0, max_backlog_packets }
    }

    /// Records one more datagram handed to QUIC.
    pub fn record_queued(&mut self)
        ensures
            final(self).queued_count() == sat_add(old(self).queued_count(), 1),
            final(self).baseline() == old(self).baseline(),
            final(self).cap() == old(self).cap(),
    {
        self.queued_datagrams = self.queued_datagrams.saturating_add(1);
    }

    /// Where the sender stands when the connection has transmitted
    /// `tx_datagrams` datagrams in all.
    pub open spec fn state_at(&self, tx_datagrams: u64, deadline_passed: bool) -> BacklogState {
        if self.cap() == 0 || self.backlog(tx_datagrams) <= self.cap() {
            BacklogState::Clear
        } else if deadline_passed {
            BacklogState::TimedOut
        } else {
            BacklogState::Full
        }
    }

    /// Where the sender stands once the connection has transmitted
    /// `tx_datagrams` datagrams in all. Without a cap it is always clear.
    pub fn state(&self, tx_datagrams: u64, deadline_passed: bool) -> (s: BacklogState)
        ensures
            s == self.state_at(tx_datagrams, deadline_passed),
    {
        if self.max_backlog_packets == 0 {
            return BacklogState::Clear;
        }
        let transmitted = tx_datagrams.saturating_sub(self.baseline_tx_datagrams);
        let backlog = self.queued_datagrams.saturating_sub(transmitted);
        if backlog <= self.max_backlog_packets {
            return BacklogState::Clear;
        }
        if deadline_passed {
            return BacklogState::TimedOut;
        }
        BacklogState::Full
    }
}

impl DatagramBacklog {
    /// Where the sender stands against the connection's transmit count as it
    /// reports it now.
    pub fn poll(&self, connection: &quinn::Connection, deadline_passed: bool) -> (s: BacklogState)
        ensures
            exists|tx: u64| s == #[trigger] self.state_at(tx, deadline_passed),
            self.cap() == 0 ==> s == BacklogState::Clear,
    {
        if self.max_backlog_packets == 0 {
            assert(self.state_at(0, deadline_passed) == BacklogState::Clear);
            return BacklogState::Clear;
        }
        let stats = read_stats(connection);
        let s = self.state(stats.frame_tx_datagram, deadline_passed);
        assert(s == self.state_at(stats.frame_tx_datagram, deadline_passed));
        s
    }
}

/// The queued count after `n` datagrams were recorded on a fresh backlog:
/// `n`, held at `u64::MAX`.
pub open spec fn queued_after(n: nat) -> u64 {
    if n <= u64::MAX {
        n as u64
    } else {
        u64::MAX
    }
}

/// Recording one more datagram on a backlog that has counted `n` gives the
/// count of `n + 1`.
pub proof fn lemma_queued_after_step(n: nat)
    ensures
        sat_add(queued_after(n), 1) == queued_after(n + 1),
{
}

/// When the sender is let go on, at most the cap of the datagrams it handed
/// to QUIC since counting began are still untransmitted: after `n` datagrams
/// were recorded on a backlog that began at transmit count `t0` with cap
/// `k > 0`, a clear state at transmit count `t` means
/// `n - (t - t0)` (each floored at zero) is at most `k`.
pub proof fn lemma_clear_within_cap(
    b: DatagramBacklog,
    n: nat,
    t: u64,
    deadline_passed: bool,
)
    requires
        b.cap() > 0,
        n <= u64::MAX,
        b.queued_count() == queued_after(n),
        b.state_at(t, deadline_passed) == BacklogState::Clear,
    ensures
        n - sat_sub(t, b.baseline()) <= b.cap(),
{
}

/// The sender is let go on exactly when there is no cap or at most the cap
/// of its datagrams are still untransmitted; held back over the cap, it
/// gives up exactly when the deadline has passed. In particular, once QUIC
/// has transmitted every datagram queued since counting began, it goes on
/// whatever the cap and the deadline.
pub proof fn lemma_backlog_verdict(b: DatagramBacklog, tx_datagrams: u64, deadline_passed: bool)
    ensures
        b.state_at(tx_datagrams, deadline_passed) == BacklogState::Clear <==> (b.cap() == 0 || (
        if tx_datagrams >= b.baseline() {
            b.queued_count() - (tx_datagrams - b.baseline())
        } else {
            b.queued_count() as int
        }) <= b.cap()),
        b.state_at(tx_datagrams, deadline_passed) == BacklogState::TimedOut <==> (b.state_at(
            tx_datagrams,
            deadline_passed,
        ) != BacklogState::Clear && deadline_passed),
        tx_datagrams >= b.baseline() + b.queued_count() ==> b.state_at(
            tx_datagrams,
            deadline_passed,
        ) == BacklogState::Clear,
{
}

/// Once QUIC has transmitted every queued datagram, the sender is clear,
/// whatever the cap.
pub proof fn lemma_backlog_drains(b: DatagramBacklog, tx_datagrams: u64)
    requires
        tx_datagrams >= b.baseline() + b.queued_count(),
    ensures
        b.backlog(tx_datagrams) == 0,
{
}

// ---------------------------------------------------------------------------
// Egress pacing: reaction to loss
// ---------------------------------------------------------------------------

/// How the adaptive pacer changes its rate after a look at the connection.
#[derive(Debug, Clone, Copy, PartialEq, Eq, Structural)]
pub enum RateChange {
    /// Too soon since the last adjustment: nothing changes.
    Hold,
    /// First look: the counters are recorded, the rate is kept.
    Baseline,
    /// Loss or congestion grew: slow down.
    Decrease,
    /// No new loss or congestion: speed up.
    Increase,
}

/// Least time between two adjustments of the pacer, in milliseconds.
pub const ADJUST_INTERVAL_MS: u128 = 250;

/// The loss and congestion counters the pacer saw at its last adjustment.
pub struct LossMonitor {
    pub last_lost_packets: Option<u64>,
    pub last_congestion_events: Option<u64>,
}

/// The pacer's verdict on a look at the connection, given the time since
/// its last adjustment and the connection's loss and congestion counters.
pub open spec fn spec_rate_change(
    m: LossMonitor,
    elapsed_ms: u128,
    lost_packets: u64,
    congestion_events: u64,
) -> RateChange {
    if elapsed_ms < ADJUST_INTERVAL_MS {
        RateChange::Hold
    } else {
        match m.last_lost_packets {
            None => RateChange::Baseline,
            Some(prev_lost) => {
                let prev_congestion = match m.last_congestion_events {
                    Some(c) => c,
                    None => congestion_events,
                };
                if lost_packets > prev_lost || congestion_events > prev_congestion {
                    RateChange::Decrease
                } else {
                    RateChange::Increase
                }
            },
        }
    }
}

impl LossMonitor {
    /// A monitor that has seen nothing yet.
    pub fn new() -> (m: Self)
        ensures
            m.last_lost_packets is None,
            m.last_congestion_events is None,
    {
        LossMonitor { last_lost_packets: None, last_congestion_events: None }
    }

    /// Takes a look at the connection. Unless it is too soon, the counters
    /// are recorded for the next look.
    pub fn observe(&mut self, elapsed_ms: u128, lost_packets: u64, congestion_events: u64) -> (c:
        RateChange)
        ensures
            c == spec_rate_change(*old(self), elapsed_ms, lost_packets, congestion_events),
            c == RateChange::Hold ==> *final(self) == *old(self),
            c != RateChange::Hold ==> final(self).last_lost_packets == Some(lost_packets)
                && final(self).last_congestion_events == Some(congestion_events),
    {
        if elapsed_ms < ADJUST_INTERVAL_MS {
            return RateChange::Hold;
        }
        let previous_lost = self.last_lost_packets;
        self.last_lost_packets = Some(lost_packets);
        match previous_lost {
            None => {
                self.last_congestion_events = Some(congestion_events);
                RateChange::Baseline
            },
            Some(prev_lost) => {
                let prev_congestion = match self.last_congestion_events {
                    Some(c) => c,
                    None => congestion_events,
                };
                self.last_congestion_events = Some(congestion_events);
                if lost_packets > prev_lost || congestion_events > prev_congestion {
                    RateChange::Decrease
                } else {
                    RateChange::Increase
                }
            },
        }
    }
}

impl LossMonitor {
    /// Takes a look at the connection's loss and congestion counters as it
    /// reports them now; too soon after the last adjustment, it reads nothing.
    pub fn observe_connection(&mut self, elapsed_ms: u128, connection: &quinn::Connection) -> (c:
        RateChange)
        ensures
            elapsed_ms < ADJUST_INTERVAL_MS ==> c == RateChange::Hold && *final(self) == *old(self),
            exists|lost: u64, congestion: u64|
                #[trigger] spec_rate_change(*old(self), elapsed_ms, lost, congestion) == c && (c
                    != RateChange::Hold ==> final(self).last_lost_packets == Some(lost)
                    && final(self).last_congestion_events == Some(congestion)),
    {
        if elapsed_ms < ADJUST_INTERVAL_MS {
            assert(spec_rate_change(*old(self), elapsed_ms, 0, 0) == RateChange::Hold);
            return RateChange::Hold;
        }
        let stats = read_stats(connection);
        let c = self.observe(elapsed_ms, stats.lost_packets, stats.congestion_events);
        assert(spec_rate_change(*old(self), elapsed_ms, stats.lost_packets, stats.congestion_events)
            == c);
        c
    }
}

/// After the first look and once the interval has passed, the pacer slows
/// down exactly when the lost-packet count or the congestion-event count
/// grew past the one recorded (a congestion count never recorded counts as
/// unchanged), and speeds up otherwise. Before the interval it holds, and
/// the first look only records.
pub proof fn lemma_rate_verdict(
    m: LossMonitor,
    elapsed_ms: u128,
    lost_packets: u64,
    congestion_events: u64,
)
    ensures
        elapsed_ms < 250 ==> spec_rate_change(m, elapsed_ms, lost_packets, congestion_events)
            == RateChange::Hold,
        elapsed_ms >= 250 && m.last_lost_packets is None ==> spec_rate_change(
            m,
            elapsed_ms,
            lost_packets,
            congestion_events,
        ) == RateChange::Baseline,
        elapsed_ms >= 250 && m.last_lost_packets is Some ==> (spec_rate_change(
            m,
            elapsed_ms,
            lost_packets,
            congestion_events,
        ) == RateChange::Decrease <==> (lost_packets > m.last_lost_packets->0 || (
        m.last_congestion_events is Some && congestion_events > m.last_congestion_events->0))),
        elapsed_ms >= 250 && m.last_lost_packets is Some ==> (spec_rate_change(
            m,
            elapsed_ms,
            lost_packets,
            congestion_events,
        ) == RateChange::Increase <==> !(lost_packets > m.last_lost_packets->0 || (
        m.last_congestion_events is Some && congestion_events > m.last_congestion_events->0))),
{
}

/// After its first look, a pacer whose counters never grow only speeds up.
pub proof fn lemma_steady_connection_speeds_up(
    m: LossMonitor,
    elapsed_ms: u128,
    lost_packets: u64,
    congestion_events: u64,
)
    requires
        elapsed_ms >= ADJUST_INTERVAL_MS,
        m.last_lost_packets == Some(lost_packets),
        m.last_congestion_events == Some(congestion_events),
    ensures
        spec_rate_change(m, elapsed_ms, lost_packets, congestion_events) == RateChange::Increase,
{
}

// ---------------------------------------------------------------------------
// Connection statistics
// ---------------------------------------------------------------------------

/// The connection counters that the statistics report shows.
#[derive(Debug, Clone, Copy, PartialEq, Eq, Structural)]
pub struct ConnectionStats {
    pub udp_tx_datagrams: u64,
    pub udp_tx_bytes: u64,
    pub udp_rx_datagrams: u64,
    pub udp_rx_bytes: u64,
    pub lost_packets: u64,
    pub lost_bytes: u64,
    pub congestion_events: u64,
    pub cwnd: u64,
    /// Whole seconds of the round-trip time.
    pub rtt_secs: u64,
    /// Nanoseconds of the round-trip time beyond its whole seconds.
    pub rtt_subsec_nanos: u32,
    pub current_mtu: u16,
    pub frame_tx_datagram: u64,
    pub frame_rx_datagram: u64,
}

/// The round-trip time in whole milliseconds.
pub open spec fn rtt_millis(s: ConnectionStats) -> nat {
    (s.rtt_secs * 1000 + s.rtt_subsec_nanos / 1_000_000) as nat
}

/// The one-line statistics report: `name=value` pairs separated by spaces.
pub open spec fn spec_stats_summary(s: ConnectionStats) -> Seq<char> {
    "udp_tx_datagrams="@ + decimal(s.udp_tx_datagrams as nat) + " udp_tx_bytes="@ + decimal(
        s.udp_tx_bytes as nat,
    ) + " udp_rx_datagrams="@ + decimal(s.udp_rx_datagrams as nat) + " udp_rx_bytes="@ + decimal(
        s.udp_rx_bytes as nat,
    ) + " lost_packets="@ + decimal(s.lost_packets as nat) + " lost_bytes="@ + decimal(
        s.lost_bytes as nat,
    ) + " congestion_events="@ + decimal(s.congestion_events as nat) + " cwnd="@ + decimal(
        s.cwnd as nat,
    ) + " rtt_ms="@ + decimal(rtt_millis(s)) + " current_mtu="@ + decimal(s.current_mtu as nat)
        + " frame_tx_datagram="@ + decimal(s.frame_tx_datagram as nat) + " frame_rx_datagram="@
        + decimal(s.frame_rx_datagram as nat)
}

/// Appends `label` and then the decimal form of `n`.
pub fn append_field(out: &mut String, label: &str, n: u128)
    ensures
        final(out)@ == old(out)@ + label@ + decimal(n as nat),
{
    out.append(label);
    append_decimal(out, n);
}

/// Appends the statistics report for `s` to `out`.
pub fn append_stats_summary(out: &mut String, s: &ConnectionStats)
    ensures
        final(out)@ == old(out)@ + spec_stats_summary(*s),
{
    let ghost start = out@;
    append_field(out, "udp_tx_datagrams=", s.udp_tx_datagrams as u128);
    let ghost p0 = "udp_tx_datagrams="@ + decimal(s.udp_tx_datagrams as nat);
    assert(out@ =~= start + p0);
    append_field(out, " udp_tx_bytes=", s.udp_tx_bytes as u128);
    let ghost p1 = p0 + " udp_tx_bytes="@ + decimal(s.udp_tx_bytes as nat);
    assert(out@ =~= start + p1);
    append_field(out, " udp_rx_datagrams=", s.udp_rx_datagrams as u128);
    let ghost p2 = p1 + " udp_rx_datagrams="@ + decimal(s.udp_rx_datagrams as nat);
    assert(out@ =~= start + p2);
    append_field(out, " udp_rx_bytes=", s.udp_rx_bytes as u128);
    let ghost p3 = p2 + " udp_rx_bytes="@ + decimal(s.udp_rx_bytes as nat);
    assert(out@ =~= start + p3);
    append_field(out, " lost_packets=", s.lost_packets as u128);
    let ghost p4 = p3 + " lost_packets="@ + decimal(s.lost_packets as nat);
    assert(out@ =~= start + p4);
    append_field(out, " lost_bytes=", s.lost_bytes as u128);
    let ghost p5 = p4 + " lost_bytes="@ + decimal(s.lost_bytes as nat);
    assert(out@ =~= start + p5);
    append_field(out, " congestion_events=", s.congestion_events as u128);
    let ghost p6 = p5 + " congestion_events="@ + decimal(s.congestion_events as nat);
    assert(out@ =~= start + p6);
    append_field(out, " cwnd=", s.cwnd as u128);
    let ghost p7 = p6 + " cwnd="@ + decimal(s.cwnd as nat);
    assert(out@ =~= start + p7);
    let rtt_ms: u128 = (s.rtt_secs as u128) * 1000 + (s.rtt_subsec_nanos / 1_000_000) as u128;
    append_field(out, " rtt_ms=", rtt_ms);
    let ghost p8 = p7 + " rtt_ms="@ + decimal(rtt_millis(*s));
    assert(out@ =~= start + p8);
    append_field(out, " current_mtu=", s.current_mtu as u128);
    let ghost p9 = p8 + " current_mtu="@ + decimal(s.current_mtu as nat);
    assert(out@ =~= start + p9);
    append_field(out, " frame_tx_datagram=", s.frame_tx_datagram as u128);
    let ghost p10 = p9 + " frame_tx_datagram="@ + decimal(s.frame_tx_datagram as nat);
    assert(out@ =~= start + p10);
    append_field(out, " frame_rx_datagram=", s.frame_rx_datagram as u128);
    let ghost p11 = p10 + " frame_rx_datagram="@ + decimal(s.frame_rx_datagram as nat);
    assert(out@ =~= start + p11);
    assert(p11 == spec_stats_summary(*s));
    assert(out@ =~= start + spec_stats_summary(*s));
}

/// The statistics report for the counters `s`.
pub fn stats_summary(s: &ConnectionStats) -> (r: String)
    ensures
        r@ == spec_stats_summary(*s),
{
    let mut out = String::new();
    append_stats_summary(&mut out, s);
    assert(out@ =~= spec_stats_summary(*s));
    out
}

/// The statistics report for a connection, from its counters as it reports
/// them now.
pub fn connection_stats_summary(connection: &quinn::Connection) -> (r: String)
    ensures
        exists|s: ConnectionStats| r@ == #[trigger] spec_stats_summary(s),
{
    let s = read_stats(connection);
    stats_summary(&s)
}

} // verus!
