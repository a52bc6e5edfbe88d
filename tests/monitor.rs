use grader::monitor::{ChildStatus, LogMessage, LogRead, MonitorState, ProcessEvent, Reaction, Wakeup};
use grader::runner::{CaptureStep, ExitResult, RunCapture};

fn fresh(real_time_sec: u32, stdout_mb: u32, stderr_mb: u32) -> MonitorState {
    MonitorState::new(real_time_sec, stdout_mb, stderr_mb)
}

#[test]
fn timeout_reported_at_limit_tick() {
    // while(1){} under a two-second limit: quiet ticks until the timeout
    let mut m = fresh(2, 0, 0);
    let first = m.on_wakeup(1000, Wakeup::Quiet(ChildStatus::Running));
    assert!(matches!(first, Reaction::Wait));
    let second = m.on_wakeup(1000, Wakeup::Quiet(ChildStatus::Running));
    assert!(matches!(second, Reaction::KillAndReport(ProcessEvent::Timeout)));
    assert_eq!(m.real_time_ms, 2000);
    assert!(!m.stdout_open && !m.stderr_open && !m.log_open);
}

#[test]
fn timeout_follows_measured_time() {
    // wakeups come early when output arrives: only measured time counts
    let mut m = fresh(2, 0, 0);
    assert!(matches!(m.on_wakeup(300, Wakeup::Stdout(Some(vec![1]))), Reaction::Report(_)));
    assert!(matches!(m.on_wakeup(1500, Wakeup::Quiet(ChildStatus::Running)), Reaction::Wait));
    assert_eq!(m.real_time_ms, 1800);
    assert!(matches!(
        m.on_wakeup(200, Wakeup::Quiet(ChildStatus::Running)),
        Reaction::KillAndReport(ProcessEvent::Timeout)
    ));
}

#[test]
fn no_timeout_without_limit() {
    let mut m = fresh(0, 0, 0);
    for _ in 0..100 {
        assert!(matches!(m.on_wakeup(1000, Wakeup::Quiet(ChildStatus::Running)), Reaction::Wait));
    }
}

#[test]
fn stdout_overflow_after_four_chunks() {
    // 1 MiB per chunk with a 4 MiB limit: four chunks pass, the fifth is the limit
    let mut m = fresh(0, 4, 0);
    let chunk = vec![b'x'; 1024 * 1024];
    let mut captured = 0usize;
    for _ in 0..4 {
        match m.on_wakeup(1000, Wakeup::Stdout(Some(chunk.clone()))) {
            Reaction::Report(ProcessEvent::StdoutData(d)) => captured += d.len(),
            other => panic!("unexpected {:?}", other),
        }
    }
    let fifth = m.on_wakeup(1000, Wakeup::Stdout(Some(chunk.clone())));
    assert!(matches!(fifth, Reaction::KillAndReport(ProcessEvent::StdoutLimit)));
    assert_eq!(captured, 4 * 1024 * 1024);
    assert!(captured <= 5 * 1024 * 1024);
}

#[test]
fn stderr_limit_counts_crossing_chunk() {
    let mut m = fresh(0, 0, 1);
    let r = m.on_wakeup(1000, Wakeup::Stderr(Some(vec![0u8; 1024 * 1024 + 1])));
    assert!(matches!(r, Reaction::KillAndReport(ProcessEvent::StderrLimit)));
    assert_eq!(m.stderr_written, 1024 * 1024 + 1);
}

#[test]
fn exit_and_signal_reaped() {
    let mut m = fresh(5, 0, 0);
    match m.on_wakeup(1000, Wakeup::Quiet(ChildStatus::Exited(3))) {
        Reaction::Report(ProcessEvent::Finished(ExitResult::Finished(3))) => {}
        other => panic!("unexpected {:?}", other),
    }
    let mut m = fresh(5, 0, 0);
    match m.on_wakeup(1000, Wakeup::Quiet(ChildStatus::Signaled(9))) {
        Reaction::Report(ProcessEvent::Finished(ExitResult::Killed(9))) => {}
        other => panic!("unexpected {:?}", other),
    }
}

#[test]
fn end_of_stream_closes_only_that_stream() {
    let mut m = fresh(0, 0, 0);
    assert!(matches!(m.on_wakeup(1000, Wakeup::Stdout(None)), Reaction::Wait));
    assert!(!m.stdout_open);
    assert!(m.stderr_open && m.log_open);
    assert!(matches!(m.on_wakeup(1000, Wakeup::Stdout(Some(vec![1]))), Reaction::Wait));
}

#[test]
fn log_frames() {
    let mut m = fresh(0, 0, 0);
    match m.on_wakeup(1000, Wakeup::Log(Some(LogRead::Frame(LogMessage::Dbg("hi".to_string()))))) {
        Reaction::Report(ProcessEvent::DebugMessage(s)) => assert_eq!(s, "hi"),
        other => panic!("unexpected {:?}", other),
    }
    assert!(matches!(m.on_wakeup(1000, Wakeup::Log(Some(LogRead::Partial))), Reaction::Wait));
    match m.on_wakeup(1000, Wakeup::Log(Some(LogRead::Frame(LogMessage::Fatal("mount".to_string()))))) {
        Reaction::ChildFailed(s) => {
            assert_eq!(grader::monitor::child_error_message(&s), "Error in child process: mount")
        }
        other => panic!("unexpected {:?}", other),
    }
}

#[test]
fn capture_collects_output_in_order() {
    let mut c = RunCapture::new();
    assert_eq!(c.take_event(ProcessEvent::StdoutData(b"ab".to_vec())), CaptureStep::More);
    assert_eq!(c.take_event(ProcessEvent::StderrData(b"e".to_vec())), CaptureStep::More);
    assert_eq!(c.take_event(ProcessEvent::StdoutData(b"c".to_vec())), CaptureStep::More);
    assert_eq!(
        c.take_event(ProcessEvent::DebugMessage("d".to_string())),
        CaptureStep::Debug("d".to_string())
    );
    assert_eq!(c.take_event(ProcessEvent::Timeout), CaptureStep::Done);
    let out = c.into_output().unwrap();
    assert_eq!(out.stdout, b"abc".to_vec());
    assert_eq!(out.stderr, b"e".to_vec());
    assert_eq!(out.exit_status, ExitResult::Timeout);
}

#[test]
fn capture_without_outcome_is_error() {
    let c = RunCapture::new();
    assert_eq!(c.into_output().unwrap_err(), "Process not finished");
}
