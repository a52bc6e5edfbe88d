use grader::limits::GradingLimits;
use grader::monitor::ChildStatus;
use grader::runner::{
    exit_result_of, id_map_line, isolation_namespaces, posix_limits, propagate_exit, CommandOutput,
    ExitPropagation, ExitResult, LaunchCmd, ResourceKind, ResourceLimit, SandboxPlan,
};

fn output(exit_status: ExitResult, stderr: &[u8]) -> CommandOutput {
    CommandOutput { exit_status, stdout: Vec::new(), stderr: stderr.to_vec() }
}

#[test]
fn only_finished_zero_is_success() {
    assert!(ExitResult::Finished(0).is_success());
    assert!(!ExitResult::Finished(1).is_success());
    assert!(!ExitResult::Killed(0).is_success());
    assert!(!ExitResult::Timeout.is_success());
    assert!(!ExitResult::StdoutLimit.is_success());
    assert!(!ExitResult::StderrLimit.is_success());
    assert!(output(ExitResult::Finished(0), b"").is_success());
    assert!(!output(ExitResult::Finished(2), b"").is_success());
}

#[test]
fn exit_result_texts() {
    assert_eq!(ExitResult::Finished(42).to_string(), "Exited with code 42");
    assert_eq!(ExitResult::Killed(9).to_string(), "Killed by signal 9");
    assert_eq!(ExitResult::Timeout.to_string(), "Killed by timeout");
    assert_eq!(ExitResult::StdoutLimit.to_string(), "Reached stdout limit");
    assert_eq!(ExitResult::StderrLimit.to_string(), "Reached stderr limit");
}

#[test]
fn error_message_prefers_stderr() {
    assert_eq!(CommandOutput::get_error_message(&Ok(output(ExitResult::Finished(0), b"x"))), None);
    assert_eq!(
        CommandOutput::get_error_message(&Ok(output(ExitResult::Finished(1), b"bad thing"))),
        Some("bad thing".to_string())
    );
    assert_eq!(
        CommandOutput::get_error_message(&Ok(output(ExitResult::Killed(11), b""))),
        Some("Killed by signal 11".to_string())
    );
    assert_eq!(
        CommandOutput::get_error_message(&Err("fork failed".to_string())),
        Some("fork failed".to_string())
    );
}

#[test]
fn output_as_text() {
    let o = CommandOutput {
        exit_status: ExitResult::Finished(0),
        stdout: "héllo".as_bytes().to_vec(),
        stderr: b"warn".to_vec(),
    };
    assert_eq!(o.stdout_as_string(), "héllo");
    assert_eq!(o.stderr_as_string(), "warn");
}

#[test]
fn command_line_text() {
    let c = LaunchCmd {
        program: "clang".to_string(),
        arguments: vec!["-c".to_string(), "-o".to_string(), "a.o".to_string()],
    };
    assert_eq!(c.to_string(), "clang -c -o a.o");
    let bare = LaunchCmd { program: "diff".to_string(), arguments: vec![] };
    assert_eq!(bare.to_string(), "diff");
}

#[test]
fn network_isolated_unless_allowed() {
    let n = isolation_namespaces(false);
    assert!(n.user && n.mount && n.ipc && n.network && n.uts);
    let n = isolation_namespaces(true);
    assert!(n.user && n.mount && n.ipc && !n.network && !n.uts);
    let plan = SandboxPlan::new(None, "/sys", "/p", "/s");
    assert!(!plan.allow_network());
}

#[test]
fn id_map_lines() {
    assert_eq!(id_map_line(1000), "0 1000 1");
    assert_eq!(id_map_line(0), "0 0 1");
}

#[test]
fn posix_limits_where_set() {
    let mut l = GradingLimits::default();
    l.cpu_time_limit_sec = 2;
    l.stack_size_limit_mb = 4;
    let r = posix_limits(&l);
    assert_eq!(
        r,
        vec![
            ResourceLimit { kind: ResourceKind::CpuTime, value: 2 },
            ResourceLimit { kind: ResourceKind::StackSize, value: 4 * 1024 * 1024 },
            ResourceLimit { kind: ResourceKind::Processes, value: 5000 },
        ]
    );
    let none = posix_limits(&GradingLimits::default());
    assert_eq!(none, vec![ResourceLimit { kind: ResourceKind::Processes, value: 5000 }]);
}

#[test]
fn overlay_layout() {
    let mut plan = SandboxPlan::new(Some(GradingLimits::default_value()), "/sys", "/cache/c/p", "/work/000042");
    assert_eq!(
        plan.overlay_options(),
        "lowerdir=/sys:/cache/c/p/lowerdir,upperdir=/work/000042/upperdir,workdir=/work/000042/workdir"
    );
    assert_eq!(plan.mergedir(), "/work/000042/mergedir");
    assert_eq!(plan.workdir(), "/work/000042/workdir");
    assert_eq!(plan.relative_workdir, "/");
    plan.set_relative_workdir("/build");
    assert_eq!(plan.relative_workdir, "/build");
    assert_eq!(plan.monitor_bounds(), (5, 1, 1));
}

#[test]
fn exit_propagation() {
    assert_eq!(propagate_exit(ExitResult::Finished(3)), ExitPropagation::Exit(3));
    assert_eq!(propagate_exit(ExitResult::Killed(9)), ExitPropagation::Raise(9));
    assert_eq!(
        propagate_exit(ExitResult::Timeout),
        ExitPropagation::Fatal("This case must not appear in child process: Killed by timeout".to_string())
    );
    // a non-zero exit (such as a refused network connection) propagates as is
    assert_eq!(exit_result_of(&ChildStatus::Exited(1)), Some(ExitResult::Finished(1)));
    assert_eq!(exit_result_of(&ChildStatus::Exited(257)), Some(ExitResult::Finished(1)));
    assert_eq!(exit_result_of(&ChildStatus::Signaled(6)), Some(ExitResult::Killed(6)));
    assert_eq!(exit_result_of(&ChildStatus::Other), None);
}
