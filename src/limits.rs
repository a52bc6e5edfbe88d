//! Resource limits of one grading run and how per-problem limits override
//! the defaults.

use vstd::prelude::*;

verus! {

/// Bounds on one sandboxed run. A zero field is unset.
#[derive(Clone, Copy, Debug, PartialEq, Eq, Structural, Default)]
pub struct GradingLimits {
    pub stack_size_limit_mb: i32,
    pub memory_max_limit_mb: i32,
    pub cpu_time_limit_sec: i32,
    pub real_time_limit_sec: i32,
    pub proc_count_limit: i32,
    pub fd_count_limit: i32,
    pub stdout_size_limit_mb: i32,
    pub stderr_size_limit_mb: i32,
    pub allow_network: bool,
    pub new_proc_delay_msec: i32,
}

/// The overriding value where it is set (non-zero), else the base value.
pub open spec fn override_field(base: i32, over: i32) -> i32 {
    if over != 0 { over } else { base }
}

/// `base` with every field that `over` sets replaced by `over`'s value;
/// network access is allowed where either allows it.
pub open spec fn limits_merged(base: GradingLimits, over: GradingLimits) -> GradingLimits {
    GradingLimits {
        stack_size_limit_mb: override_field(base.stack_size_limit_mb, over.stack_size_limit_mb),
        memory_max_limit_mb: override_field(base.memory_max_limit_mb, over.memory_max_limit_mb),
        cpu_time_limit_sec: override_field(base.cpu_time_limit_sec, over.cpu_time_limit_sec),
        real_time_limit_sec: override_field(base.real_time_limit_sec, over.real_time_limit_sec),
        proc_count_limit: override_field(base.proc_count_limit, over.proc_count_limit),
        fd_count_limit: override_field(base.fd_count_limit, over.fd_count_limit),
        stdout_size_limit_mb: override_field(base.stdout_size_limit_mb, over.stdout_size_limit_mb),
        stderr_size_limit_mb: override_field(base.stderr_size_limit_mb, over.stderr_size_limit_mb),
        allow_network: base.allow_network || over.allow_network,
        new_proc_delay_msec: override_field(base.new_proc_delay_msec, over.new_proc_delay_msec),
    }
}

fn pick(base: i32, over: i32) -> (r: i32)
    ensures
        r == override_field(base, over),
{
    if over != 0 {
        over
    } else {
        base
    }
}

impl GradingLimits {
    /// The limits that apply when the configuration names none.
    pub open spec fn default_value_spec() -> GradingLimits {
        GradingLimits {
            stack_size_limit_mb: 4,
            memory_max_limit_mb: 64,
            cpu_time_limit_sec: 1,
            real_time_limit_sec: 5,
            proc_count_limit: 20,
            fd_count_limit: 20,
            stdout_size_limit_mb: 1,
            stderr_size_limit_mb: 1,
            allow_network: false,
            new_proc_delay_msec: 0,
        }
    }

    /// The limits that apply when the configuration names none.
    pub fn default_value() -> (r: GradingLimits)
        ensures
            r == Self::default_value_spec(),
            r == (GradingLimits {
                stack_size_limit_mb: 4,
                memory_max_limit_mb: 64,
                cpu_time_limit_sec: 1,
                real_time_limit_sec: 5,
                proc_count_limit: 20,
                fd_count_limit: 20,
                stdout_size_limit_mb: 1,
                stderr_size_limit_mb: 1,
                allow_network: false,
                new_proc_delay_msec: 0,
            }),
    {
        GradingLimits {
            stack_size_limit_mb: 4,
            memory_max_limit_mb: 64,
            cpu_time_limit_sec: 1,
            real_time_limit_sec: 5,
            proc_count_limit: 20,
            fd_count_limit: 20,
            stdout_size_limit_mb: 1,
            stderr_size_limit_mb: 1,
            allow_network: false,
            new_proc_delay_msec: 0,
        }
    }

    /// These limits, overridden by every limit that `other` sets.
    pub fn updated_with(&self, other: &GradingLimits) -> (r: GradingLimits)
        ensures
            r == limits_merged(*self, *other),
    {
        GradingLimits {
            stack_size_limit_mb: pick(self.stack_size_limit_mb, other.stack_size_limit_mb),
            memory_max_limit_mb: pick(self.memory_max_limit_mb, other.memory_max_limit_mb),
            cpu_time_limit_sec: pick(self.cpu_time_limit_sec, other.cpu_time_limit_sec),
            real_time_limit_sec: pick(self.real_time_limit_sec, other.real_time_limit_sec),
            proc_count_limit: pick(self.proc_count_limit, other.proc_count_limit),
            fd_count_limit: pick(self.fd_count_limit, other.fd_count_limit),
            stdout_size_limit_mb: pick(self.stdout_size_limit_mb, other.stdout_size_limit_mb),
            stderr_size_limit_mb: pick(self.stderr_size_limit_mb, other.stderr_size_limit_mb),
            allow_network: self.allow_network || other.allow_network,
            new_proc_delay_msec: pick(self.new_proc_delay_msec, other.new_proc_delay_msec),
        }
    }
}

} // verus!
