//! Outcomes of one sandboxed command and the plan that the sandbox is built
//! from.

use vstd::prelude::*;
use vstd::string::*;
use vstd::utf8::{decode_utf8, valid_utf8};

use crate::limits::GradingLimits;
use crate::monitor::{ChildStatus, ProcessEvent};
use crate::storage::{join_path, path_join};
use crate::text::{decimal, join_words, push_decimal, view_strings, join_with_spaces};

verus! {

/// How a sandboxed command ended.
#[derive(Clone, Copy, Debug, PartialEq, Eq, Structural)]
pub enum ExitResult {
    Finished(u8),
    Killed(u8),
    Timeout,
    StdoutLimit,
    StderrLimit,
}

/// The text that describes an outcome.
pub open spec fn exit_text(r: ExitResult) -> Seq<char> {
    match r {
        ExitResult::Finished(s) => "Exited with code "@ + decimal(s as nat),
        ExitResult::Killed(s) => "Killed by signal "@ + decimal(s as nat),
        ExitResult::Timeout => "Killed by timeout"@,
        ExitResult::StdoutLimit => "Reached stdout limit"@,
        ExitResult::StderrLimit => "Reached stderr limit"@,
    }
}

impl ExitResult {
    /// Only a normal exit with status zero is a success.
    pub fn is_success(&self) -> (r: bool)
        ensures
            r == (*self == ExitResult::Finished(0)),
    {
        match self {
            ExitResult::Finished(status) => *status == 0,
            ExitResult::Killed(_) => false,
            ExitResult::Timeout => false,
            ExitResult::StdoutLimit => false,
            ExitResult::StderrLimit => false,
        }
    }

    /// A human-readable description of the outcome.
    pub fn to_string(&self) -> (s: String)
        ensures
            s@ == exit_text(*self),
    {
        match self {
            ExitResult::Finished(status) => {
                let mut s = String::from_str("Exited with code ");
                push_decimal(&mut s, *status as u64);
                s
            },
            ExitResult::Killed(signal) => {
                let mut s = String::from_str("Killed by signal ");
                push_decimal(&mut s, *signal as u64);
                s
            },
            ExitResult::Timeout => String::from_str("Killed by timeout"),
            ExitResult::StdoutLimit => String::from_str("Reached stdout limit"),
            ExitResult::StderrLimit => String::from_str("Reached stderr limit"),
        }
    }
}

/// Relies on `String::from_utf8`: it succeeds exactly on valid UTF-8 and
/// then holds the decoded characters.
#[verifier::external_body]
pub(crate) fn utf8_text(bytes: Vec<u8>) -> (r: Option<String>)
    ensures
        r is Some <==> valid_utf8(bytes@),
        r matches Some(s) ==> s@ == decode_utf8(bytes@),
{
    String::from_utf8(bytes).ok()
}

/// Everything a finished command produced.
#[derive(Clone, Debug)]
pub struct CommandOutput {
    pub exit_status: ExitResult,
    pub stdout: Vec<u8>,
    pub stderr: Vec<u8>,
}

/// The message that describes why a command did not succeed, if it did not.
pub open spec fn error_message_of(maybe_output: Result<CommandOutput, String>) -> Option<Seq<char>> {
    match maybe_output {
        Err(e) => Some(e@),
        Ok(r) => if r.exit_status == ExitResult::Finished(0) {
            None
        } else if decode_utf8(r.stderr@).len() > 0 {
            Some(decode_utf8(r.stderr@))
        } else {
            Some(exit_text(r.exit_status))
        },
    }
}

impl CommandOutput {
    /// Whether the command exited normally with status zero.
    pub fn is_success(&self) -> (r: bool)
        ensures
            r == (self.exit_status == ExitResult::Finished(0)),
    {
        match self.exit_status {
            ExitResult::Finished(status) => status == 0,
            _ => false,
        }
    }

    /// The standard output as text; it must be valid UTF-8.
    pub fn stdout_as_string(&self) -> (s: String)
        requires
            valid_utf8(self.stdout@),
        ensures
            s@ == decode_utf8(self.stdout@),
    {
        utf8_text(self.stdout.clone()).unwrap()
    }

    /// The standard error as text; it must be valid UTF-8.
    pub fn stderr_as_string(&self) -> (s: String)
        requires
            valid_utf8(self.stderr@),
        ensures
            s@ == decode_utf8(self.stderr@),
    {
        utf8_text(self.stderr.clone()).unwrap()
    }

    /// `None` for a successful command; otherwise the launch error, the
    /// command's standard error, or (when that is empty) the outcome's
    /// description.
    pub fn get_error_message(maybe_output: &Result<CommandOutput, String>) -> (r: Option<String>)
        requires
            maybe_output matches Ok(o) ==> (o.exit_status != ExitResult::Finished(0) ==> valid_utf8(
                o.stderr@,
            )),
        ensures
            r matches Some(m) ==> error_message_of(*maybe_output) == Some(m@),
            r is None ==> error_message_of(*maybe_output) is None,
    {
        match maybe_output {
            Err(e) => Some(e.clone()),
            Ok(r) => {
                if r.is_success() {
                    None
                } else {
                    let stderr = r.stderr_as_string();
                    if stderr.unicode_len() > 0 {
                        Some(stderr)
                    } else {
                        Some(r.exit_status.to_string())
                    }
                }
            },
        }
    }
}

/// A program and its arguments.
pub struct LaunchCmd {
    pub program: String,
    pub arguments: Vec<String>,
}

impl LaunchCmd {
    /// The command line: the program and its arguments, separated by spaces.
    pub fn to_string(&self) -> (s: String)
        ensures
            s@ == join_words(seq![self.program@] + view_strings(self.arguments@)),
    {
        let mut all: Vec<String> = Vec::new();
        all.push(self.program.clone());
        let mut i: usize = 0;
        while i < self.arguments.len()
            invariant
                i <= self.arguments@.len(),
                view_strings(all@) == seq![self.program@] + view_strings(self.arguments@.take(i as int)),
            decreases self.arguments@.len() - i,
        {
            let ghost before = all@;
            all.push(self.arguments[i].clone());
            i = i + 1;
            proof {
                assert(view_strings(all@) =~= view_strings(before).push(self.arguments@[i - 1]@));
                assert(view_strings(self.arguments@.take(i as int)) =~= view_strings(
                    self.arguments@.take(i - 1),
                ).push(self.arguments@[i - 1]@));
            }
        }
        proof {
            assert(self.arguments@.take(self.arguments@.len() as int) =~= self.arguments@);
        }
        join_with_spaces(&all)
    }
}

/// Linux namespaces that a sandbox unshares.
#[derive(Clone, Copy, Debug, PartialEq, Eq, Structural)]
pub struct NamespaceSet {
    pub user: bool,
    pub mount: bool,
    pub ipc: bool,
    pub network: bool,
    pub uts: bool,
}

/// User, mount and IPC namespaces always; network and host-name namespaces
/// unless the network is allowed.
pub fn isolation_namespaces(allow_network: bool) -> (r: NamespaceSet)
    ensures
        r == (NamespaceSet {
            user: true,
            mount: true,
            ipc: true,
            network: !allow_network,
            uts: !allow_network,
        }),
{
    NamespaceSet { user: true, mount: true, ipc: true, network: !allow_network, uts: !allow_network }
}

/// A line of `/proc/self/uid_map` or `gid_map` that maps root inside the
/// namespace to `id` outside it.
pub fn id_map_line(id: u32) -> (r: String)
    ensures
        r@ == "0 "@ + decimal(id as nat) + " 1"@,
{
    let mut r = String::from_str("0 ");
    push_decimal(&mut r, id as u64);
    r.append(" 1");
    r
}

/// A POSIX resource that a sandbox bounds.
#[derive(Clone, Copy, Debug, PartialEq, Eq, Structural)]
pub enum ResourceKind {
    CpuTime,
    StackSize,
    OpenFiles,
    Processes,
}

/// A soft and hard bound to set on one resource.
#[derive(Clone, Copy, Debug, PartialEq, Eq, Structural)]
pub struct ResourceLimit {
    pub kind: ResourceKind,
    pub value: i64,
}

/// The process-count bound that is always set, against fork bombs.
pub const PROCESS_COUNT_BACKSTOP: i64 = 5000;

pub const MIB_BYTES: i64 = 1048576;

/// The POSIX limits of a sandbox: CPU seconds, stack bytes and open files
/// where set (non-zero), then the process-count backstop.
pub open spec fn posix_limits_of(l: GradingLimits) -> Seq<ResourceLimit> {
    (if l.cpu_time_limit_sec != 0 {
        seq![ResourceLimit { kind: ResourceKind::CpuTime, value: l.cpu_time_limit_sec as i64 }]
    } else {
        seq![]
    }) + (if l.stack_size_limit_mb != 0 {
        seq![
            ResourceLimit {
                kind: ResourceKind::StackSize,
                value: (l.stack_size_limit_mb * MIB_BYTES) as i64,
            },
        ]
    } else {
        seq![]
    }) + (if l.fd_count_limit != 0 {
        seq![ResourceLimit { kind: ResourceKind::OpenFiles, value: l.fd_count_limit as i64 }]
    } else {
        seq![]
    }) + seq![ResourceLimit { kind: ResourceKind::Processes, value: PROCESS_COUNT_BACKSTOP }]
}

/// The POSIX resource limits to set in a sandbox with limits `l`.
pub fn posix_limits(l: &GradingLimits) -> (r: Vec<ResourceLimit>)
    ensures
        r@ == posix_limits_of(*l),
{
    let mut r: Vec<ResourceLimit> = Vec::new();
    if l.cpu_time_limit_sec != 0 {
        r.push(ResourceLimit { kind: ResourceKind::CpuTime, value: l.cpu_time_limit_sec as i64 });
    }
    if l.stack_size_limit_mb != 0 {
        r.push(
            ResourceLimit {
                kind: ResourceKind::StackSize,
                value: l.stack_size_limit_mb as i64 * MIB_BYTES,
            },
        );
    }
    if l.fd_count_limit != 0 {
        r.push(ResourceLimit { kind: ResourceKind::OpenFiles, value: l.fd_count_limit as i64 });
    }
    r.push(ResourceLimit { kind: ResourceKind::Processes, value: PROCESS_COUNT_BACKSTOP });
    proof {
        assert(r@ =~= posix_limits_of(*l));
    }
    r
}

/// What a waiting process does with its child's outcome.
#[derive(Clone, Debug, PartialEq, Eq)]
pub enum ExitPropagation {
    /// Exit with this status.
    Exit(i32),
    /// Raise this signal on itself.
    Raise(u8),
    /// Report this fatal error: the outcome cannot come from a child.
    Fatal(String),
}

/// Reproduces a child's outcome in the waiting process: a normal exit as
/// the same exit status, a death by signal as the same signal.
pub fn propagate_exit(r: ExitResult) -> (p: ExitPropagation)
    ensures
        r matches ExitResult::Finished(s) ==> p == ExitPropagation::Exit(s as i32),
        r matches ExitResult::Killed(sig) ==> p == ExitPropagation::Raise(sig),
        !(r is Finished || r is Killed) ==> (p matches ExitPropagation::Fatal(m) && m@
            == "This case must not appear in child process: "@ + exit_text(r)),
{
    match r {
        ExitResult::Finished(status) => ExitPropagation::Exit(status as i32),
        ExitResult::Killed(signal) => ExitPropagation::Raise(signal),
        _ => {
            let mut m = String::from_str("This case must not appear in child process: ");
            let d = r.to_string();
            m.append(d.as_str());
            ExitPropagation::Fatal(m)
        },
    }
}

/// The outcome that a blocking wait reports, if it is final: an exit
/// status or a terminating signal, each truncated to a byte.
pub fn exit_result_of(status: &ChildStatus) -> (r: Option<ExitResult>)
    ensures
        status matches ChildStatus::Exited(c) ==> r == Some(ExitResult::Finished(*c as u8)),
        status matches ChildStatus::Signaled(c) ==> r == Some(ExitResult::Killed(*c as u8)),
        (status is Running || status is Other) ==> r is None,
{
    match status {
        ChildStatus::Exited(code) => Some(ExitResult::Finished(*code as u8)),
        ChildStatus::Signaled(signal) => Some(ExitResult::Killed(*signal as u8)),
        _ => None,
    }
}

/// Where one sandboxed run takes place and under which limits.
pub struct SandboxPlan {
    pub limits: Option<GradingLimits>,
    pub system_root: String,
    pub problem_root: String,
    pub submission_root: String,
    pub relative_workdir: String,
}

/// The overlay mount options: the system and problem layers below, the
/// submission's layer on top.
pub open spec fn overlay_options_of(system: Seq<char>, problem: Seq<char>, submission: Seq<char>) -> Seq<
    char,
> {
    "lowerdir="@ + system + ":"@ + join_path(problem, "lowerdir"@) + ",upperdir="@ + join_path(
        submission,
        "upperdir"@,
    ) + ",workdir="@ + join_path(submission, "workdir"@)
}

impl SandboxPlan {
    /// A plan that starts commands in the sandbox's root directory.
    pub fn new(
        limits: Option<GradingLimits>,
        system_root: &str,
        problem_root: &str,
        submission_root: &str,
    ) -> (r: SandboxPlan)
        ensures
            r.limits == limits,
            r.system_root@ == system_root@,
            r.problem_root@ == problem_root@,
            r.submission_root@ == submission_root@,
            r.relative_workdir@ == "/"@,
    {
        SandboxPlan {
            limits,
            system_root: String::from_str(system_root),
            problem_root: String::from_str(problem_root),
            submission_root: String::from_str(submission_root),
            relative_workdir: String::from_str("/"),
        }
    }

    /// Sets the directory, inside the sandbox, where commands start.
    pub fn set_relative_workdir(&mut self, path: &str)
        ensures
            final(self).relative_workdir@ == path@,
            final(self).limits == old(self).limits,
            final(self).system_root == old(self).system_root,
            final(self).problem_root == old(self).problem_root,
            final(self).submission_root == old(self).submission_root,
    {
        self.relative_workdir = String::from_str(path);
    }

    /// Whether the sandboxed command may use the network: only where its
    /// limits allow it.
    pub fn allow_network(&self) -> (r: bool)
        ensures
            r == (self.limits matches Some(l) && l.allow_network),
    {
        match &self.limits {
            Some(l) => l.allow_network,
            None => false,
        }
    }

    /// The overlay's scratch directory.
    pub fn workdir(&self) -> (r: String)
        ensures
            r@ == join_path(self.submission_root@, "workdir"@),
    {
        path_join(self.submission_root.as_str(), "workdir")
    }

    /// The overlay's mount point, which becomes the sandbox's root.
    pub fn mergedir(&self) -> (r: String)
        ensures
            r@ == join_path(self.submission_root@, "mergedir"@),
    {
        path_join(self.submission_root.as_str(), "mergedir")
    }

    /// The options of the overlay mount.
    pub fn overlay_options(&self) -> (r: String)
        ensures
            r@ == overlay_options_of(
                self.system_root@,
                self.problem_root@,
                self.submission_root@,
            ),
    {
        let mut r = String::from_str("lowerdir=");
        r.append(self.system_root.as_str());
        r.append(":");
        let lower = path_join(self.problem_root.as_str(), "lowerdir");
        r.append(lower.as_str());
        r.append(",upperdir=");
        let upper = path_join(self.submission_root.as_str(), "upperdir");
        r.append(upper.as_str());
        r.append(",workdir=");
        let work = path_join(self.submission_root.as_str(), "workdir");
        r.append(work.as_str());
        r
    }

    /// The POSIX limits to set: none without limits.
    pub fn posix_limits(&self) -> (r: Vec<ResourceLimit>)
        ensures
            self.limits matches Some(l) ==> r@ == posix_limits_of(l),
            self.limits is None ==> r@.len() == 0,
    {
        match &self.limits {
            Some(l) => posix_limits(l),
            None => Vec::new(),
        }
    }

    /// The monitor's bounds: real-time seconds and output megabytes, zero
    /// where unset or without limits.
    pub fn monitor_bounds(&self) -> (r: (u32, u32, u32))
        ensures
            self.limits matches Some(l) ==> r == (non_negative(l.real_time_limit_sec),
                non_negative(l.stdout_size_limit_mb), non_negative(l.stderr_size_limit_mb)),
            self.limits is None ==> r == (0u32, 0u32, 0u32),
    {
        match &self.limits {
            Some(l) => (
                to_bound(l.real_time_limit_sec),
                to_bound(l.stdout_size_limit_mb),
                to_bound(l.stderr_size_limit_mb),
            ),
            None => (0, 0, 0),
        }
    }
}

/// A limit as a bound; a negative limit is no limit.
pub open spec fn non_negative(v: i32) -> u32 {
    if v > 0 { v as u32 } else { 0 }
}

fn to_bound(v: i32) -> (r: u32)
    ensures
        r == non_negative(v),
{
    if v > 0 {
        v as u32
    } else {
        0
    }
}

/// Collects what a running command reports until it ends.
pub struct RunCapture {
    pub stdout: Vec<u8>,
    pub stderr: Vec<u8>,
    pub exit_result: Option<ExitResult>,
}

/// What taking in one event asks of the caller.
#[derive(Debug, PartialEq, Eq)]
pub enum CaptureStep {
    /// Keep reading events.
    More,
    /// Keep reading events; the child sent this debug message.
    Debug(String),
    /// The command ended.
    Done,
}

impl RunCapture {
    /// Nothing captured yet.
    pub fn new() -> (r: RunCapture)
        ensures
            r.stdout@.len() == 0,
            r.stderr@.len() == 0,
            r.exit_result is None,
    {
        RunCapture { stdout: Vec::new(), stderr: Vec::new(), exit_result: None }
    }

    /// Takes in one event: output is appended in order; a terminal event
    /// records the outcome and ends the run.
    pub fn take_event(&mut self, event: ProcessEvent) -> (r: CaptureStep)
        ensures
            event matches ProcessEvent::StdoutData(d) ==> final(self).stdout@ == old(self).stdout@ + d@
                && final(self).stderr@ == old(self).stderr@ && final(self).exit_result == old(
                self,
            ).exit_result && r == CaptureStep::More,
            event matches ProcessEvent::StderrData(d) ==> final(self).stderr@ == old(self).stderr@ + d@
                && final(self).stdout@ == old(self).stdout@ && final(self).exit_result == old(
                self,
            ).exit_result && r == CaptureStep::More,
            event matches ProcessEvent::DebugMessage(m) ==> *final(self) == *old(self) && r
                == CaptureStep::Debug(m),
            event matches ProcessEvent::Finished(x) ==> final(self).exit_result == Some(x) && r
                == CaptureStep::Done,
            event is Timeout ==> final(self).exit_result == Some(ExitResult::Timeout) && r
                == CaptureStep::Done,
            event is StdoutLimit ==> final(self).exit_result == Some(ExitResult::StdoutLimit) && r
                == CaptureStep::Done,
            event is StderrLimit ==> final(self).exit_result == Some(ExitResult::StderrLimit) && r
                == CaptureStep::Done,
            (event is Finished || event is Timeout || event is StdoutLimit || event is StderrLimit)
                ==> final(self).stdout == old(self).stdout && final(self).stderr == old(self).stderr,
    {
        match event {
            ProcessEvent::Finished(x) => {
                self.exit_result = Some(x);
                CaptureStep::Done
            },
            ProcessEvent::Timeout => {
                self.exit_result = Some(ExitResult::Timeout);
                CaptureStep::Done
            },
            ProcessEvent::StdoutLimit => {
                self.exit_result = Some(ExitResult::StdoutLimit);
                CaptureStep::Done
            },
            ProcessEvent::StderrLimit => {
                self.exit_result = Some(ExitResult::StderrLimit);
                CaptureStep::Done
            },
            ProcessEvent::StdoutData(mut d) => {
                self.stdout.append(&mut d);
                CaptureStep::More
            },
            ProcessEvent::StderrData(mut d) => {
                self.stderr.append(&mut d);
                CaptureStep::More
            },
            ProcessEvent::DebugMessage(m) => CaptureStep::Debug(m),
        }
    }

    /// The command's output, once its outcome is known.
    pub fn into_output(self) -> (r: Result<CommandOutput, String>)
        ensures
            self.exit_result matches Some(x) ==> (r matches Ok(o) && o.exit_status == x && o.stdout
                == self.stdout && o.stderr == self.stderr),
            self.exit_result is None ==> (r matches Err(m) && m@ == "Process not finished"@),
    {
        match self.exit_result {
            Some(x) => Ok(CommandOutput { exit_status: x, stdout: self.stdout, stderr: self.stderr }),
            None => Err(String::from_str("Process not finished")),
        }
    }
}

} // verus!
