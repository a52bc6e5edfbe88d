//! The decisions of the process monitor: what each wakeup of the poller
//! means for one running sandboxed child.

use vstd::prelude::*;
use vstd::string::*;

use crate::runner::ExitResult;

verus! {

/// A frame of the child's out-of-band log channel.
#[derive(Clone, Debug, PartialEq, Eq)]
pub enum LogMessage {
    Dbg(String),
    Fatal(String),
}

/// What the monitor reports to the runner.
#[derive(Debug)]
pub enum ProcessEvent {
    Finished(ExitResult),
    Timeout,
    StdoutLimit,
    StderrLimit,
    StdoutData(Vec<u8>),
    StderrData(Vec<u8>),
    DebugMessage(String),
}

/// The child's state, as a non-blocking wait reports it.
pub enum ChildStatus {
    /// No state change is available yet.
    Running,
    /// The child exited with this status.
    Exited(i32),
    /// The child was terminated by this signal.
    Signaled(i32),
    /// Any other state change (stopped, continued).
    Other,
}

/// What was read from the log channel.
pub enum LogRead {
    /// A complete frame.
    Frame(LogMessage),
    /// The bytes so far end inside a frame.
    Partial,
    /// The bytes do not hold a frame; the text says why.
    Undecodable(String),
}

/// What one wait of the poller observed. A `None` payload means that the
/// descriptor reached its end.
pub enum Wakeup {
    /// No descriptor was ready within the tick; the child's status.
    Quiet(ChildStatus),
    Stdout(Option<Vec<u8>>),
    Stderr(Option<Vec<u8>>),
    Log(Option<LogRead>),
}

/// What the monitor decides after a wakeup.
#[derive(Debug)]
pub enum Reaction {
    /// Nothing to report: wait again.
    Wait,
    /// Report this event.
    Report(ProcessEvent),
    /// Kill the child, then report this event.
    KillAndReport(ProcessEvent),
    /// The child reported this fatal setup error.
    ChildFailed(String),
    /// The log channel held bytes that are no frame; the text says why.
    LogUnreadable(String),
}

/// Counters and open descriptors of a monitored child. A limit of zero is
/// no limit.
pub struct MonitorState {
    pub real_time_ms: u64,
    pub real_time_limit_ms: u64,
    pub stdout_limit: u64,
    pub stderr_limit: u64,
    pub stdout_written: u64,
    pub stderr_written: u64,
    pub stdout_open: bool,
    pub stderr_open: bool,
    pub log_open: bool,
}

/// The longest the poller waits before it wakes up again.
pub const POLL_INTERVAL_MS: u64 = 1000;

pub const MS_PER_SEC: u64 = 1000;

pub const MIB: u64 = 1048576;

/// `a + b`, capped at the largest `u64`.
pub open spec fn saturating_sum(a: u64, b: int) -> u64 {
    if a + b > u64::MAX { u64::MAX } else { (a + b) as u64 }
}

/// The number of bytes a read delivered.
pub open spec fn payload_len(data: Option<Vec<u8>>) -> int {
    match data {
        Some(d) => d@.len() as int,
        None => 0,
    }
}

/// Whether `written` bytes stay within `limit`; zero is no limit.
pub open spec fn within_limit(written: int, limit: u64) -> bool {
    written <= limit || limit == 0
}

impl MonitorState {
    /// All descriptors closed: nothing more is read from the child.
    pub open spec fn closed(self) -> MonitorState {
        MonitorState { stdout_open: false, stderr_open: false, log_open: false, ..self }
    }

    /// The wakeup's time tick applied.
    pub open spec fn ticked(self, elapsed_ms: u64) -> MonitorState {
        MonitorState { real_time_ms: saturating_sum(self.real_time_ms, elapsed_ms as int), ..self }
    }

    /// Whether the next tick reaches the real-time limit.
    pub open spec fn times_out(self, elapsed_ms: u64) -> bool {
        let t = self.ticked(elapsed_ms);
        t.real_time_ms >= t.real_time_limit_ms && t.real_time_limit_ms > 0
    }

    /// The state after a wakeup.
    pub open spec fn next_state(self, elapsed_ms: u64, w: Wakeup) -> MonitorState {
        let t = self.ticked(elapsed_ms);
        if self.times_out(elapsed_ms) {
            t.closed()
        } else {
            match w {
                Wakeup::Quiet(status) => match status {
                    ChildStatus::Running => t,
                    _ => t.closed(),
                },
                Wakeup::Stdout(data) => if !t.stdout_open {
                    t
                } else if data is None {
                    MonitorState { stdout_open: false, ..t }
                } else {
                    let written = saturating_sum(t.stdout_written, payload_len(data));
                    let u = MonitorState { stdout_written: written, ..t };
                    if within_limit(t.stdout_written + payload_len(data), t.stdout_limit) {
                        u
                    } else {
                        u.closed()
                    }
                },
                Wakeup::Stderr(data) => if !t.stderr_open {
                    t
                } else if data is None {
                    MonitorState { stderr_open: false, ..t }
                } else {
                    let written = saturating_sum(t.stderr_written, payload_len(data));
                    let u = MonitorState { stderr_written: written, ..t };
                    if within_limit(t.stderr_written + payload_len(data), t.stderr_limit) {
                        u
                    } else {
                        u.closed()
                    }
                },
                Wakeup::Log(read) => if t.log_open && read is None {
                    MonitorState { log_open: false, ..t }
                } else {
                    t
                },
            }
        }
    }

    /// What the monitor reports after a wakeup.
    pub open spec fn reaction(self, elapsed_ms: u64, w: Wakeup) -> Reaction {
        let t = self.ticked(elapsed_ms);
        if self.times_out(elapsed_ms) {
            Reaction::KillAndReport(ProcessEvent::Timeout)
        } else {
            match w {
                Wakeup::Quiet(status) => match status {
                    ChildStatus::Exited(code) => Reaction::Report(
                        ProcessEvent::Finished(ExitResult::Finished(code as u8)),
                    ),
                    ChildStatus::Signaled(signal) => Reaction::Report(
                        ProcessEvent::Finished(ExitResult::Killed(signal as u8)),
                    ),
                    _ => Reaction::Wait,
                },
                Wakeup::Stdout(data) => match data {
                    Some(d) => if !t.stdout_open {
                        Reaction::Wait
                    } else if within_limit(t.stdout_written + d@.len(), t.stdout_limit) {
                        Reaction::Report(ProcessEvent::StdoutData(d))
                    } else {
                        Reaction::KillAndReport(ProcessEvent::StdoutLimit)
                    },
                    None => Reaction::Wait,
                },
                Wakeup::Stderr(data) => match data {
                    Some(d) => if !t.stderr_open {
                        Reaction::Wait
                    } else if within_limit(t.stderr_written + d@.len(), t.stderr_limit) {
                        Reaction::Report(ProcessEvent::StderrData(d))
                    } else {
                        Reaction::KillAndReport(ProcessEvent::StderrLimit)
                    },
                    None => Reaction::Wait,
                },
                Wakeup::Log(read) => match read {
                    Some(LogRead::Frame(LogMessage::Dbg(m))) => if t.log_open {
                        Reaction::Report(ProcessEvent::DebugMessage(m))
                    } else {
                        Reaction::Wait
                    },
                    Some(LogRead::Frame(LogMessage::Fatal(m))) => if t.log_open {
                        Reaction::ChildFailed(m)
                    } else {
                        Reaction::Wait
                    },
                    Some(LogRead::Undecodable(m)) => if t.log_open {
                        Reaction::LogUnreadable(m)
                    } else {
                        Reaction::Wait
                    },
                    _ => Reaction::Wait,
                },
            }
        }
    }
}

fn saturating_add(a: u64, b: usize) -> (r: u64)
    ensures
        r == saturating_sum(a, b as int),
{
    a.saturating_add(b as u64)
}

fn fits(written: u64, len: usize, limit: u64) -> (r: bool)
    ensures
        r == within_limit(written + len, limit),
{
    match written.checked_add(len as u64) {
        Some(total) => total <= limit || limit == 0,
        None => limit == 0,
    }
}

impl MonitorState {
    /// A monitor for a freshly started child with the given limits (zero is
    /// no limit).
    pub fn new(real_time_limit_sec: u32, stdout_limit_mb: u32, stderr_limit_mb: u32) -> (r:
        MonitorState)
        ensures
            r.real_time_ms == 0,
            r.real_time_limit_ms == real_time_limit_sec as int * MS_PER_SEC,
            r.stdout_limit == stdout_limit_mb as int * MIB,
            r.stderr_limit == stderr_limit_mb as int * MIB,
            r.stdout_written == 0,
            r.stderr_written == 0,
            r.stdout_open && r.stderr_open && r.log_open,
    {
        MonitorState {
            real_time_ms: 0,
            real_time_limit_ms: real_time_limit_sec as u64 * MS_PER_SEC,
            stdout_limit: stdout_limit_mb as u64 * MIB,
            stderr_limit: stderr_limit_mb as u64 * MIB,
            stdout_written: 0,
            stderr_written: 0,
            stdout_open: true,
            stderr_open: true,
            log_open: true,
        }
    }

    fn close_all(&mut self)
        ensures
            *final(self) == old(self).closed(),
    {
        self.stdout_open = false;
        self.stderr_open = false;
        self.log_open = false;
    }

    /// Decides what one wakeup of the poller means, given the milliseconds
    /// measured (on a monotonic clock) since the last one: the time limit is
    /// checked first; data is counted
    /// before its limit is checked, so the chunk that crosses a limit is
    /// reported as that limit.
    pub fn on_wakeup(&mut self, elapsed_ms: u64, w: Wakeup) -> (r: Reaction)
        ensures
            *final(self) == old(self).next_state(elapsed_ms, w),
            r == old(self).reaction(elapsed_ms, w),
    {
        self.real_time_ms = self.real_time_ms.saturating_add(elapsed_ms);
        if self.real_time_ms >= self.real_time_limit_ms && self.real_time_limit_ms > 0 {
            self.close_all();
            return Reaction::KillAndReport(ProcessEvent::Timeout);
        }
        match w {
            Wakeup::Quiet(status) => match status {
                ChildStatus::Running => Reaction::Wait,
                ChildStatus::Exited(code) => {
                    self.close_all();
                    Reaction::Report(ProcessEvent::Finished(ExitResult::Finished(code as u8)))
                },
                ChildStatus::Signaled(signal) => {
                    self.close_all();
                    Reaction::Report(ProcessEvent::Finished(ExitResult::Killed(signal as u8)))
                },
                ChildStatus::Other => {
                    self.close_all();
                    Reaction::Wait
                },
            },
            Wakeup::Stdout(data) => {
                if !self.stdout_open {
                    return Reaction::Wait;
                }
                match data {
                    None => {
                        self.stdout_open = false;
                        Reaction::Wait
                    },
                    Some(d) => {
                        let within = fits(self.stdout_written, d.len(), self.stdout_limit);
                        self.stdout_written = saturating_add(self.stdout_written, d.len());
                        if within {
                            Reaction::Report(ProcessEvent::StdoutData(d))
                        } else {
                            self.close_all();
                            Reaction::KillAndReport(ProcessEvent::StdoutLimit)
                        }
                    },
                }
            },
            Wakeup::Stderr(data) => {
                if !self.stderr_open {
                    return Reaction::Wait;
                }
                match data {
                    None => {
                        self.stderr_open = false;
                        Reaction::Wait
                    },
                    Some(d) => {
                        let within = fits(self.stderr_written, d.len(), self.stderr_limit);
                        self.stderr_written = saturating_add(self.stderr_written, d.len());
                        if within {
                            Reaction::Report(ProcessEvent::StderrData(d))
                        } else {
                            self.close_all();
                            Reaction::KillAndReport(ProcessEvent::StderrLimit)
                        }
                    },
                }
            },
            Wakeup::Log(read) => {
                if !self.log_open {
                    return Reaction::Wait;
                }
                match read {
                    None => {
                        self.log_open = false;
                        Reaction::Wait
                    },
                    Some(LogRead::Partial) => Reaction::Wait,
                    Some(LogRead::Frame(LogMessage::Dbg(m))) => Reaction::Report(
                        ProcessEvent::DebugMessage(m),
                    ),
                    Some(LogRead::Frame(LogMessage::Fatal(m))) => Reaction::ChildFailed(m),
                    Some(LogRead::Undecodable(m)) => Reaction::LogUnreadable(m),
                }
            },
        }
    }
}

/// The state after a sequence of wakeups, each with the milliseconds
/// measured since the one before.
pub open spec fn run(s: MonitorState, ws: Seq<(u64, Wakeup)>) -> MonitorState
    decreases ws.len(),
{
    if ws.len() == 0 {
        s
    } else {
        run(s, ws.drop_last()).next_state(ws.last().0, ws.last().1)
    }
}

/// The reaction to the last of a sequence of wakeups.
pub open spec fn last_reaction(s: MonitorState, ws: Seq<(u64, Wakeup)>) -> Reaction {
    run(s, ws.drop_last()).reaction(ws.last().0, ws.last().1)
}

/// The milliseconds measured over a sequence of wakeups.
pub open spec fn elapsed_total(ws: Seq<(u64, Wakeup)>) -> int
    decreases ws.len(),
{
    if ws.len() == 0 {
        0
    } else {
        elapsed_total(ws.drop_last()) + ws.last().0
    }
}

/// Bytes of standard output that a sequence of wakeups reports as data.
pub open spec fn stdout_reported(s: MonitorState, ws: Seq<(u64, Wakeup)>) -> int
    decreases ws.len(),
{
    if ws.len() == 0 {
        0
    } else {
        stdout_reported(s, ws.drop_last()) + match last_reaction(s, ws) {
            Reaction::Report(ProcessEvent::StdoutData(d)) => d@.len() as int,
            _ => 0,
        }
    }
}

proof fn lemma_run_keeps_limits(s: MonitorState, ws: Seq<(u64, Wakeup)>)
    ensures
        run(s, ws).real_time_limit_ms == s.real_time_limit_ms,
        run(s, ws).stdout_limit == s.stdout_limit,
        run(s, ws).stderr_limit == s.stderr_limit,
    decreases ws.len(),
{
    if ws.len() > 0 {
        lemma_run_keeps_limits(s, ws.drop_last());
    }
}

proof fn lemma_run_time(s: MonitorState, ws: Seq<(u64, Wakeup)>)
    ensures
        run(s, ws).real_time_ms == if s.real_time_ms + elapsed_total(ws) > u64::MAX {
            u64::MAX as int
        } else {
            s.real_time_ms + elapsed_total(ws)
        },
        elapsed_total(ws) >= 0,
    decreases ws.len(),
{
    if ws.len() > 0 {
        lemma_run_time(s, ws.drop_last());
    }
}

/// A child whose real-time limit is `T` seconds gets a timeout reported,
/// and is killed, at the first wakeup by which `T` seconds of measured time
/// have passed since it started. As the poller wakes at least once every
/// `POLL_INTERVAL_MS`, the parent sees a terminal event within `T` seconds
/// plus one interval.
pub proof fn lemma_timeout_reported(s: MonitorState, ws: Seq<(u64, Wakeup)>, limit_sec: nat)
    requires
        s.real_time_ms == 0,
        limit_sec > 0,
        s.real_time_limit_ms == limit_sec * MS_PER_SEC,
        ws.len() > 0,
        elapsed_total(ws) >= limit_sec * MS_PER_SEC,
    ensures
        last_reaction(s, ws) == Reaction::KillAndReport(ProcessEvent::Timeout),
        run(s, ws).real_time_ms >= s.real_time_limit_ms,
{
    let before = ws.drop_last();
    lemma_run_time(s, before);
    lemma_run_keeps_limits(s, before);
    lemma_run_time(s, ws);
}

proof fn lemma_stdout_reported_bounded(s: MonitorState, ws: Seq<(u64, Wakeup)>)
    requires
        s.stdout_limit > 0,
    ensures
        stdout_reported(s, ws) <= s.stdout_limit,
        stdout_reported(s, ws) <= run(s, ws).stdout_written - s.stdout_written,
        run(s, ws).stdout_written >= s.stdout_written,
    decreases ws.len(),
{
    if ws.len() > 0 {
        lemma_stdout_reported_bounded(s, ws.drop_last());
        lemma_run_keeps_limits(s, ws.drop_last());
    }
}

/// With a standard-output limit, the data reported from a fresh monitor
/// never sums to more than the limit: the chunk that would cross it is
/// reported as the limit instead, and the child is killed.
pub proof fn lemma_stdout_within_limit(s: MonitorState, ws: Seq<(u64, Wakeup)>)
    requires
        s.stdout_written == 0,
        s.stdout_limit > 0,
    ensures
        stdout_reported(s, ws) <= s.stdout_limit,
{
    lemma_stdout_reported_bounded(s, ws);
}

/// The error that a child's fatal log frame becomes.
pub fn child_error_message(message: &str) -> (r: String)
    ensures
        r@ == "Error in child process: "@ + message@,
{
    let mut r = String::from_str("Error in child process: ");
    r.append(message);
    r
}

} // verus!
