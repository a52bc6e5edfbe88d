//! The decisions of the dialogue with the coordinator: service status,
//! recovery from stream errors, problem-cache refreshes, endpoints and the
//! grading platform.

use vstd::prelude::*;
use vstd::string::*;

use crate::model::{GradingOptions, Submission};
use crate::text::{decimal, push_decimal};

verus! {

/// Seconds to wait before re-establishing a dropped stream.
pub const RECONNECT_TIMEOUT: u64 = 10;

/// What the worker tells the coordinator about itself.
#[derive(Clone, Copy, Debug, PartialEq, Eq, Structural)]
pub enum ServiceStatus {
    Unknown,
    Idle,
    Busy,
    ShuttingDown,
}

/// Idle while some worker is free, busy otherwise; the capacity is the
/// number of free workers (at most `i32::MAX`).
pub fn service_status(free_workers: usize) -> (r: (ServiceStatus, i32))
    ensures
        r.0 == if free_workers > 0 { ServiceStatus::Idle } else { ServiceStatus::Busy },
        r.1 == if free_workers <= i32::MAX { free_workers as i32 } else { i32::MAX },
{
    let status = if free_workers > 0 {
        ServiceStatus::Idle
    } else {
        ServiceStatus::Busy
    };
    let capacity = if free_workers <= 2147483647usize {
        free_workers as i32
    } else {
        2147483647i32
    };
    (status, capacity)
}

/// The status codes of the RPC layer.
#[derive(Clone, Copy, Debug, PartialEq, Eq, Structural)]
pub enum RpcCode {
    Success,
    Cancelled,
    Unknown,
    InvalidArgument,
    DeadlineExceeded,
    NotFound,
    AlreadyExists,
    PermissionDenied,
    ResourceExhausted,
    FailedPrecondition,
    Aborted,
    OutOfRange,
    Unimplemented,
    Internal,
    Unavailable,
    DataLoss,
    Unauthenticated,
}

/// What to do about an error on the submissions stream.
#[derive(Clone, Copy, Debug, PartialEq, Eq, Structural)]
pub enum StreamRecovery {
    /// Wait this many seconds, then re-establish the stream.
    Reconnect(u64),
    /// Give up: the error ends the dialogue.
    Fail,
}

/// An internal error (a proxy dropping an idle long-lived stream) is
/// recovered by reconnecting after the timeout; every other error ends the
/// dialogue.
pub fn stream_recovery(code: RpcCode) -> (r: StreamRecovery)
    ensures
        code == RpcCode::Internal ==> r == StreamRecovery::Reconnect(RECONNECT_TIMEOUT),
        code != RpcCode::Internal ==> r == StreamRecovery::Fail,
{
    match code {
        RpcCode::Internal => StreamRecovery::Reconnect(RECONNECT_TIMEOUT),
        _ => StreamRecovery::Fail,
    }
}

/// Whether the coordinator sent content with a problem response.
#[derive(Clone, Copy, Debug, PartialEq, Eq, Structural)]
pub enum ContentStatus {
    HasData,
    NotChanged,
}

/// A request for a problem's content, naming the cached version.
#[derive(Clone, Debug)]
pub struct ProblemContentRequest {
    pub course_data_id: String,
    pub problem_id: String,
    pub cached_timestamp: i64,
}

/// The coordinator's answer about a problem.
#[derive(Clone, Debug)]
pub struct ProblemContentResponse {
    pub course_data_id: String,
    pub problem_id: String,
    pub last_modified: i64,
    pub status: ContentStatus,
    pub grading_options: Option<GradingOptions>,
}

/// The request for a submission's problem, given the cached stamp (zero
/// when nothing is cached); a submission without files is refused.
pub fn problem_request(submission: &Submission, cached_timestamp: i64) -> (r: Result<
    ProblemContentRequest,
    String,
>)
    ensures
        submission.solution_files.files@.len() == 0 <==> r is Err,
        r matches Err(m) ==> m@ == "Submission "@ + crate::text::decimal_int(submission.id as int)
            + " has no solution files"@,
        r matches Ok(q) ==> q.course_data_id@ == submission.course_data_id@ && q.problem_id@
            == submission.problem_id@ && q.cached_timestamp == cached_timestamp,
{
    if submission.solution_files.files.len() == 0 {
        let mut m = String::from_str("Submission ");
        let d = crate::text::decimal_i64(submission.id);
        m.append(d.as_str());
        m.append(" has no solution files");
        return Err(m);
    }
    Ok(
        ProblemContentRequest {
            course_data_id: submission.course_data_id.clone(),
            problem_id: submission.problem_id.clone(),
            cached_timestamp,
        },
    )
}

/// Whether a response must be written to the cache: when it carries data,
/// or when its version differs from the cached one and it holds the
/// problem's options. A response that reports no change for the cached
/// version leaves the cache alone.
pub open spec fn must_store(cached_timestamp: i64, r: ProblemContentResponse) -> bool {
    r.status == ContentStatus::HasData || (r.last_modified != cached_timestamp
        && r.grading_options is Some)
}

/// Whether a problem response is written to the cache.
pub fn should_store(cached_timestamp: i64, response: &ProblemContentResponse) -> (r: bool)
    ensures
        r == must_store(cached_timestamp, *response),
{
    response.status == ContentStatus::HasData || (response.last_modified != cached_timestamp
        && response.grading_options.is_some())
}

/// A response that reports no change for the version in the cache causes
/// no write.
pub proof fn lemma_cache_hit_keeps_cache(cached_timestamp: i64, r: ProblemContentResponse)
    requires
        r.status == ContentStatus::NotChanged,
        r.last_modified == cached_timestamp,
    ensures
        !must_store(cached_timestamp, r),
{
}

/// Processor architectures that a worker may run on.
#[derive(Clone, Copy, Debug, PartialEq, Eq, Structural)]
pub enum Arch {
    Any,
    X86,
    X8664,
    Armv7,
    Aarch64,
}

/// The grading platform of a host architecture (as Rust names it);
/// `None` for an architecture that the worker does not support.
pub fn grading_platform(arch: &str) -> (r: Option<Arch>)
    ensures
        arch@ == "x86"@ ==> r == Some(Arch::X86),
        arch@ == "x86_64"@ ==> r == Some(Arch::X8664),
        arch@ == "arm"@ ==> r == Some(Arch::Armv7),
        arch@ == "aarch64"@ ==> r == Some(Arch::Aarch64),
        !(arch@ == "x86"@ || arch@ == "x86_64"@ || arch@ == "arm"@ || arch@ == "aarch64"@) ==> r
            is None,
{
    proof {
        reveal_strlit("x86");
        reveal_strlit("x86_64");
        reveal_strlit("arm");
        reveal_strlit("aarch64");
        assert("x86"@[0] != "arm"@[0]);
        assert("x86"@.len() != "x86_64"@.len() && "x86"@.len() != "aarch64"@.len());
        assert("arm"@.len() != "x86_64"@.len() && "arm"@.len() != "aarch64"@.len());
        assert("x86_64"@.len() != "aarch64"@.len());
    }
    let a = String::from_str(arch);
    if a == String::from_str("x86") {
        Some(Arch::X86)
    } else if a == String::from_str("x86_64") {
        Some(Arch::X8664)
    } else if a == String::from_str("arm") {
        Some(Arch::Armv7)
    } else if a == String::from_str("aarch64") {
        Some(Arch::Aarch64)
    } else {
        None
    }
}

/// The scheme that a configured endpoint scheme stands for: none means a
/// Unix socket; `grpc` and `grpcs` are plain and TLS HTTP/2.
pub open spec fn normalized_scheme(scheme: Option<Seq<char>>) -> Seq<char> {
    match scheme {
        None => "unix"@,
        Some(s) => if s == "grpc"@ {
            "http"@
        } else if s == "grpcs"@ {
            "https"@
        } else {
            s
        },
    }
}

/// The port of an endpoint: the given one, else the scheme's default.
pub open spec fn endpoint_port(scheme: Seq<char>, port: Option<u16>) -> nat {
    match port {
        Some(p) => p as nat,
        None => if scheme == "http"@ {
            80
        } else if scheme == "https"@ {
            443
        } else {
            0
        },
    }
}

/// The address that a channel connects to: `unix://<path>` for a socket,
/// else `<scheme>://<host>:<port><path>`; `None` where a network endpoint
/// has no host.
pub open spec fn endpoint_address_of(
    scheme: Option<Seq<char>>,
    host: Option<Seq<char>>,
    port: Option<u16>,
    path: Seq<char>,
) -> Option<Seq<char>> {
    let s = normalized_scheme(scheme);
    if s == "unix"@ {
        Some("unix://"@ + path)
    } else {
        match host {
            None => None,
            Some(h) => Some(s + "://"@ + h + ":"@ + decimal(endpoint_port(s, port)) + path),
        }
    }
}

/// The address of a configured endpoint, from its parts.
pub fn endpoint_address(scheme: Option<&str>, host: Option<&str>, port: Option<u16>, path: &str) -> (r:
    Option<String>)
    ensures
        r matches Some(a) ==> endpoint_address_of(
            match scheme {
                Some(s) => Some(s@),
                None => None,
            },
            match host {
                Some(h) => Some(h@),
                None => None,
            },
            port,
            path@,
        ) == Some(a@),
        r is None ==> endpoint_address_of(
            match scheme {
                Some(s) => Some(s@),
                None => None,
            },
            match host {
                Some(h) => Some(h@),
                None => None,
            },
            port,
            path@,
        ) is None,
{
    let s = match scheme {
        None => String::from_str("unix"),
        Some(x) => {
            let xs = String::from_str(x);
            if xs == String::from_str("grpc") {
                String::from_str("http")
            } else if xs == String::from_str("grpcs") {
                String::from_str("https")
            } else {
                xs
            }
        },
    };
    if s == String::from_str("unix") {
        let mut a = String::from_str("unix://");
        a.append(path);
        return Some(a);
    }
    let h = match host {
        None => return None,
        Some(h) => h,
    };
    let p: u64 = match port {
        Some(p) => p as u64,
        None => if s == String::from_str("http") {
            80
        } else if s == String::from_str("https") {
            443
        } else {
            0
        },
    };
    let mut a = s;
    a.append("://");
    a.append(h);
    a.append(":");
    push_decimal(&mut a, p);
    a.append(path);
    Some(a)
}

/// Attaches the worker's opaque token to every request.
#[derive(Clone, Debug)]
pub struct YajudgeInterceptor {
    pub private_token: String,
}

impl YajudgeInterceptor {
    /// An interceptor that sends this token.
    pub fn new(private_token: String) -> (r: YajudgeInterceptor)
        ensures
            r.private_token == private_token,
    {
        YajudgeInterceptor { private_token }
    }

    /// The metadata entry that every request carries: `token`, with the
    /// worker's token as its value.
    pub fn header(&self) -> (r: (&'static str, &String))
        ensures
            r.0@ == "token"@,
            r.1 == &self.private_token,
    {
        ("token", &self.private_token)
    }
}

} // verus!
