//! Counting how far a scan has come.

use std::time::Duration;
use std::time::Instant;
use vstd::prelude::*;

use crate::address::SocketAddress;

verus! {

/// A point on the clock of the machine.
#[verifier::external_type_specification]
#[verifier::external_body]
pub struct ExInstant(std::time::Instant);

/// `std::time::Instant::now` reads the clock. Nothing is claimed of the point
/// in time that it returns.
pub assume_specification[ std::time::Instant::now ]() -> std::time::Instant
;

/// `std::time::Instant::elapsed` reads the clock again. Nothing is claimed of
/// the span of time that it returns.
pub assume_specification[ std::time::Instant::elapsed ](instant: &std::time::Instant) -> std::time::Duration
;

/// The sum of two counts, which starts again from zero past the largest count.
pub open spec fn wrapped_sum(a: u64, b: u64) -> u64 {
    if a + b <= u64::MAX {
        (a + b) as u64
    } else {
        (a + b - u64::MAX - 1) as u64
    }
}

/// The number of sockets of a scan: the addresses times the ports, if the
/// addresses are known and the product fits a counter.
pub open spec fn socket_total(ports_total: u64, total_ips: Option<u64>) -> Option<u64> {
    match total_ips {
        Some(ips) => if ips * ports_total <= u64::MAX {
            Some((ips * ports_total) as u64)
        } else {
            None
        },
        None => None,
    }
}

/// What a `ScanProgress` has counted.
pub struct ProgressCounts {
    pub ports_total: u64,
    pub total_ips: Option<u64>,
    pub total_sockets: Option<u64>,
    pub resolved_ips: u64,
    pub scheduled_sockets: u64,
    pub completed_sockets: u64,
    pub open_sockets: u64,
    pub open_ips: u64,
    pub last_socket: Option<SocketAddress>,
}

/// The progress of a scan.
///
/// Several workers report to it at a time. Each report is one short update, so
/// sharing it takes a lock around it and no more.
#[derive(Debug)]
pub struct ScanProgress {
    ports_total: u64,
    total_ips: Option<u64>,
    total_sockets: Option<u64>,
    start: Instant,
    resolved_ips: u64,
    scheduled_sockets: u64,
    completed_sockets: u64,
    open_sockets: u64,
    open_ips: u64,
    last_socket: Option<SocketAddress>,
}

impl View for ScanProgress {
    type V = ProgressCounts;

    closed spec fn view(&self) -> ProgressCounts {
        ProgressCounts {
            ports_total: self.ports_total,
            total_ips: self.total_ips,
            total_sockets: self.total_sockets,
            resolved_ips: self.resolved_ips,
            scheduled_sockets: self.scheduled_sockets,
            completed_sockets: self.completed_sockets,
            open_sockets: self.open_sockets,
            open_ips: self.open_ips,
            last_socket: self.last_socket,
        }
    }
}

/// The progress of a scan at one moment.
#[derive(Clone, Copy, Debug)]
pub struct ProgressSnapshot {
    pub ports_total: u64,
    pub total_ips: Option<u64>,
    pub total_sockets: Option<u64>,
    pub resolved_ips: u64,
    pub scheduled_sockets: u64,
    pub completed_sockets: u64,
    pub open_sockets: u64,
    pub open_ips: u64,
    pub last_socket: Option<SocketAddress>,
    pub elapsed: Duration,
}

impl ProgressSnapshot {
    /// What had been counted.
    pub open spec fn counts(self) -> ProgressCounts {
        ProgressCounts {
            ports_total: self.ports_total,
            total_ips: self.total_ips,
            total_sockets: self.total_sockets,
            resolved_ips: self.resolved_ips,
            scheduled_sockets: self.scheduled_sockets,
            completed_sockets: self.completed_sockets,
            open_sockets: self.open_sockets,
            open_ips: self.open_ips,
            last_socket: self.last_socket,
        }
    }

    /// How many sockets are scheduled and not completed, none where the counts
    /// say that more were completed than scheduled.
    pub open spec fn spec_inflight(self) -> u64 {
        if self.scheduled_sockets >= self.completed_sockets {
            (self.scheduled_sockets - self.completed_sockets) as u64
        } else {
            0
        }
    }

    /// How many sockets are scheduled and not completed.
    pub fn inflight(&self) -> (count: u64)
        ensures
            count == self.spec_inflight(),
            self.scheduled_sockets >= self.completed_sockets ==> count + self.completed_sockets
                == self.scheduled_sockets,
            self.scheduled_sockets < self.completed_sockets ==> count == 0,
    {
        self.scheduled_sockets.saturating_sub(self.completed_sockets)
    }
}

impl ProgressCounts {
    /// The counts at the start of a scan.
    pub open spec fn initial(ports_total: u64, total_ips: Option<u64>) -> ProgressCounts {
        ProgressCounts {
            ports_total,
            total_ips,
            total_sockets: socket_total(ports_total, total_ips),
            resolved_ips: 0,
            scheduled_sockets: 0,
            completed_sockets: 0,
            open_sockets: 0,
            open_ips: 0,
            last_socket: None,
        }
    }

    pub open spec fn with_resolved_ips(self, delta: u64) -> ProgressCounts {
        ProgressCounts { resolved_ips: wrapped_sum(self.resolved_ips, delta), ..self }
    }

    pub open spec fn with_scheduled_sockets(self, value: u64) -> ProgressCounts {
        ProgressCounts { scheduled_sockets: value, ..self }
    }

    pub open spec fn with_completed_sockets(self, value: u64) -> ProgressCounts {
        ProgressCounts { completed_sockets: value, ..self }
    }

    pub open spec fn with_open_sockets(self, delta: u64) -> ProgressCounts {
        ProgressCounts { open_sockets: wrapped_sum(self.open_sockets, delta), ..self }
    }

    pub open spec fn with_open_ips(self, delta: u64) -> ProgressCounts {
        ProgressCounts { open_ips: wrapped_sum(self.open_ips, delta), ..self }
    }

    pub open spec fn with_last_socket(self, socket: SocketAddress) -> ProgressCounts {
        ProgressCounts { last_socket: Some(socket), ..self }
    }
}

impl ScanProgress {
    /// The point in time at which counting started.
    pub closed spec fn started(&self) -> Instant {
        self.start
    }

    /// Starts counting. `total_ips` is unknown where addresses are resolved on
    /// the way.
    pub fn new(ports_total: u64, total_ips: Option<u64>) -> (progress: ScanProgress)
        ensures
            progress@ == ProgressCounts::initial(ports_total, total_ips),
            call_ensures(std::time::Instant::now, (), progress.started()),
    {
        let total_sockets: Option<u64> = match total_ips {
            Some(ips) => ips.checked_mul(ports_total),
            None => None,
        };
        ScanProgress {
            ports_total,
            total_ips,
            total_sockets,
            start: Instant::now(),
            resolved_ips: 0,
            scheduled_sockets: 0,
            completed_sockets: 0,
            open_sockets: 0,
            open_ips: 0,
            last_socket: None,
        }
    }

    /// Counts resolved addresses. The counter wraps around.
    pub fn add_resolved_ips(&mut self, delta: u64)
        ensures
            final(self)@ == old(self)@.with_resolved_ips(delta),
            final(self).started() == old(self).started(),
    {
        self.resolved_ips = self.resolved_ips.wrapping_add(delta);
    }

    /// How many sockets were handed to the workers.
    pub fn scheduled_sockets(&self) -> (count: u64)
        ensures
            count == self@.scheduled_sockets,
    {
        self.scheduled_sockets
    }

    /// How many sockets the workers are done with.
    pub fn completed_sockets(&self) -> (count: u64)
        ensures
            count == self@.completed_sockets,
    {
        self.completed_sockets
    }

    /// Sets how many sockets were handed to the workers.
    pub fn set_scheduled_sockets(&mut self, value: u64)
        ensures
            final(self)@ == old(self)@.with_scheduled_sockets(value),
            final(self).started() == old(self).started(),
    {
        self.scheduled_sockets = value;
    }

    /// Sets how many sockets the workers are done with.
    pub fn set_completed_sockets(&mut self, value: u64)
        ensures
            final(self)@ == old(self)@.with_completed_sockets(value),
            final(self).started() == old(self).started(),
    {
        self.completed_sockets = value;
    }

    /// Counts open sockets. The counter wraps around.
    pub fn inc_open_sockets(&mut self, delta: u64)
        ensures
            final(self)@ == old(self)@.with_open_sockets(delta),
            final(self).started() == old(self).started(),
    {
        self.open_sockets = self.open_sockets.wrapping_add(delta);
    }

    /// Counts hosts with an open port. The counter wraps around.
    pub fn inc_open_ips(&mut self, delta: u64)
        ensures
            final(self)@ == old(self)@.with_open_ips(delta),
            final(self).started() == old(self).started(),
    {
        self.open_ips = self.open_ips.wrapping_add(delta);
    }

    /// Notes the socket that was tried last.
    pub fn set_last_socket(&mut self, socket: SocketAddress)
        ensures
            final(self)@ == old(self)@.with_last_socket(socket),
            final(self).started() == old(self).started(),
    {
        self.last_socket = Some(socket);
    }

    /// The counts together with a span of time.
    pub fn snapshot_at(&self, elapsed: Duration) -> (snapshot: ProgressSnapshot)
        ensures
            snapshot.counts() == self@,
            snapshot.ports_total == self@.ports_total,
            snapshot.total_ips == self@.total_ips,
            snapshot.total_sockets == self@.total_sockets,
            snapshot.resolved_ips == self@.resolved_ips,
            snapshot.scheduled_sockets == self@.scheduled_sockets,
            snapshot.completed_sockets == self@.completed_sockets,
            snapshot.open_sockets == self@.open_sockets,
            snapshot.open_ips == self@.open_ips,
            snapshot.last_socket == self@.last_socket,
            snapshot.elapsed == elapsed,
    {
        ProgressSnapshot {
            ports_total: self.ports_total,
            total_ips: self.total_ips,
            total_sockets: self.total_sockets,
            resolved_ips: self.resolved_ips,
            scheduled_sockets: self.scheduled_sockets,
            completed_sockets: self.completed_sockets,
            open_sockets: self.open_sockets,
            open_ips: self.open_ips,
            last_socket: self.last_socket,
            elapsed,
        }
    }

    /// The counts now, together with the time since counting started.
    ///
    /// The time is what the clock measured since then. How two measurements
    /// compare is up to the clock.
    pub fn snapshot(&self) -> (snapshot: ProgressSnapshot)
        ensures
            snapshot.counts() == self@,
            call_ensures(std::time::Instant::elapsed, (&self.started(),), snapshot.elapsed),
    {
        self.snapshot_at(self.start.elapsed())
    }
}

/// A report of a worker.
pub enum Report {
    ResolvedIps(u64),
    ScheduledSockets(u64),
    CompletedSockets(u64),
    OpenSockets(u64),
    OpenIps(u64),
    LastSocket(SocketAddress),
}

impl Report {
    /// Whether two reports both replace the same value, so that the later wins.
    pub open spec fn replaces_same(self, other: Report) -> bool {
        ||| self is ScheduledSockets && other is ScheduledSockets
        ||| self is CompletedSockets && other is CompletedSockets
        ||| self is LastSocket && other is LastSocket
    }
}

impl ProgressCounts {
    /// The counts after a report.
    pub open spec fn after(self, report: Report) -> ProgressCounts {
        match report {
            Report::ResolvedIps(delta) => self.with_resolved_ips(delta),
            Report::ScheduledSockets(value) => self.with_scheduled_sockets(value),
            Report::CompletedSockets(value) => self.with_completed_sockets(value),
            Report::OpenSockets(delta) => self.with_open_sockets(delta),
            Report::OpenIps(delta) => self.with_open_ips(delta),
            Report::LastSocket(socket) => self.with_last_socket(socket),
        }
    }

    /// The number of sockets is the one that the addresses and ports give.
    pub open spec fn totals_agree(self) -> bool {
        self.total_sockets == socket_total(self.ports_total, self.total_ips)
    }
}

/// The order in which two workers report does not matter, unless both replace
/// the same value.
pub proof fn lemma_reports_commute(counts: ProgressCounts, first: Report, second: Report)
    requires
        !first.replaces_same(second),
    ensures
        counts.after(first).after(second) == counts.after(second).after(first),
{
}

/// Counting twice is counting the sum.
pub proof fn lemma_reports_add_up(counts: ProgressCounts, a: u64, b: u64)
    ensures
        counts.with_resolved_ips(a).with_resolved_ips(b) == counts.with_resolved_ips(
            wrapped_sum(a, b),
        ),
        counts.with_open_sockets(a).with_open_sockets(b) == counts.with_open_sockets(
            wrapped_sum(a, b),
        ),
        counts.with_open_ips(a).with_open_ips(b) == counts.with_open_ips(wrapped_sum(a, b)),
{
}

/// A report is what the next snapshot shows: the last of several wins.
pub proof fn lemma_later_report_wins(counts: ProgressCounts, earlier: Report, later: Report)
    requires
        earlier.replaces_same(later),
    ensures
        counts.after(earlier).after(later) == counts.after(later),
{
}

/// Taking a snapshot uses nothing up: two snapshots without a report between
/// them show the same counts, and measure the time from the same start.
pub proof fn lemma_snapshots_agree(
    progress: ScanProgress,
    first: ProgressSnapshot,
    second: ProgressSnapshot,
)
    requires
        call_ensures(ScanProgress::snapshot, (&progress,), first),
        call_ensures(ScanProgress::snapshot, (&progress,), second),
    ensures
        first.counts() == second.counts(),
        call_ensures(std::time::Instant::elapsed, (&progress.started(),), first.elapsed),
        call_ensures(std::time::Instant::elapsed, (&progress.started(),), second.elapsed),
{
}

/// The totals agree from the start, and no report changes them.
pub proof fn lemma_totals_agree(
    ports_total: u64,
    total_ips: Option<u64>,
    counts: ProgressCounts,
    report: Report,
)
    ensures
        ProgressCounts::initial(ports_total, total_ips).totals_agree(),
        counts.after(report).ports_total == counts.ports_total,
        counts.after(report).total_ips == counts.total_ips,
        counts.after(report).total_sockets == counts.total_sockets,
        counts.totals_agree() ==> counts.after(report).totals_agree(),
{
}

/// A snapshot shows each count as it is.
pub proof fn lemma_snapshot_shows_counts(progress: ScanProgress, snapshot: ProgressSnapshot)
    requires
        call_ensures(ScanProgress::snapshot, (&progress,), snapshot),
    ensures
        snapshot.ports_total == progress@.ports_total,
        snapshot.total_ips == progress@.total_ips,
        snapshot.total_sockets == progress@.total_sockets,
        snapshot.resolved_ips == progress@.resolved_ips,
        snapshot.scheduled_sockets == progress@.scheduled_sockets,
        snapshot.completed_sockets == progress@.completed_sockets,
        snapshot.open_sockets == progress@.open_sockets,
        snapshot.open_ips == progress@.open_ips,
        snapshot.last_socket == progress@.last_socket,
{
}

/// A sum is the sum of the two counts, or that sum less the size of the range of
/// a counter.
pub proof fn lemma_sums_wrap(a: u64, b: u64)
    ensures
        wrapped_sum(a, b) == a + b || wrapped_sum(a, b) + 0x1_0000_0000_0000_0000 == a + b,
{
}

/// A new progress has counted nothing. The number of its sockets is the number of
/// addresses times the number of ports, and is unknown exactly if the addresses
/// are or if the product exceeds a counter.
pub proof fn lemma_new_progress(ports_total: u64, total_ips: Option<u64>, progress: ScanProgress)
    requires
        call_ensures(ScanProgress::new, (ports_total, total_ips), progress),
    ensures
        progress@.ports_total == ports_total,
        progress@.total_ips == total_ips,
        total_ips is None ==> progress@.total_sockets is None,
        total_ips matches Some(ips) ==> match progress@.total_sockets {
            Some(sockets) => sockets == ips * ports_total,
            None => ips * ports_total > u64::MAX,
        },
        progress@.resolved_ips == 0,
        progress@.scheduled_sockets == 0,
        progress@.completed_sockets == 0,
        progress@.open_sockets == 0,
        progress@.open_ips == 0,
        progress@.last_socket is None,
{
}

/// Each report changes the one count that it is about, and no other.
pub proof fn lemma_reports_change_one_count(counts: ProgressCounts, n: u64, socket: SocketAddress)
    ensures
        ({
            let after = counts.with_resolved_ips(n);
            &&& (after.resolved_ips == counts.resolved_ips + n || after.resolved_ips
                + 0x1_0000_0000_0000_0000 == counts.resolved_ips + n)
            &&& after == (ProgressCounts { resolved_ips: after.resolved_ips, ..counts })
        }),
        ({
            let after = counts.with_open_sockets(n);
            &&& (after.open_sockets == counts.open_sockets + n || after.open_sockets
                + 0x1_0000_0000_0000_0000 == counts.open_sockets + n)
            &&& after == (ProgressCounts { open_sockets: after.open_sockets, ..counts })
        }),
        ({
            let after = counts.with_open_ips(n);
            &&& (after.open_ips == counts.open_ips + n || after.open_ips
                + 0x1_0000_0000_0000_0000 == counts.open_ips + n)
            &&& after == (ProgressCounts { open_ips: after.open_ips, ..counts })
        }),
        counts.with_scheduled_sockets(n) == (ProgressCounts { scheduled_sockets: n, ..counts }),
        counts.with_completed_sockets(n) == (ProgressCounts { completed_sockets: n, ..counts }),
        counts.with_last_socket(socket) == (ProgressCounts { last_socket: Some(socket), ..counts }),
{
}

/// The sockets in flight and the completed ones are together the scheduled ones,
/// unless more were completed than scheduled. Then none is in flight.
pub proof fn lemma_inflight_and_completed(snapshot: ProgressSnapshot, inflight: u64)
    requires
        call_ensures(ProgressSnapshot::inflight, (&snapshot,), inflight),
    ensures
        snapshot.scheduled_sockets >= snapshot.completed_sockets ==> inflight
            + snapshot.completed_sockets == snapshot.scheduled_sockets,
        snapshot.scheduled_sockets <= snapshot.completed_sockets ==> inflight == 0,
{
}

} // verus!
