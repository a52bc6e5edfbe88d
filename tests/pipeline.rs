use grader::builder::{BuilderError, SourceProcessError};
use grader::limits::GradingLimits;
use grader::merge::UpdatedWith;
use grader::model::{File, FileSet, SolutionStatus, Submission};
use grader::processor::{Stage, SubmissionPipeline};
use grader::rpc::YajudgeInterceptor;

fn submission() -> Submission {
    Submission {
        id: 5,
        course_data_id: "c".to_string(),
        problem_id: "p".to_string(),
        solution_files: FileSet { files: vec![File { name: "ok.c".to_string(), data: Vec::new() }] },
        status: SolutionStatus::AnyStatusOrNull,
        style_error_log: String::new(),
        build_error_log: String::new(),
    }
}

#[test]
fn pipeline_runs_to_done() {
    let mut p = SubmissionPipeline::new(submission());
    assert_eq!(p.stage, Stage::Queued);
    p.on_stored(Ok(submission()));
    assert_eq!(p.stage, Stage::Stored);
    assert_eq!(p.on_style_checked(Ok(())), None);
    assert_eq!(p.stage, Stage::StyleChecked);
    assert_eq!(p.on_built(Ok(Vec::new())), None);
    assert_eq!(p.stage, Stage::Built);
    p.on_tested();
    assert_eq!(p.stage, Stage::Done);
    assert_eq!(p.submission.status, SolutionStatus::AnyStatusOrNull);
}

#[test]
fn storage_failure_is_check_failed() {
    let mut p = SubmissionPipeline::new(submission());
    p.on_stored(Err("disk full".to_string()));
    assert_eq!(p.stage, Stage::Done);
    assert_eq!(p.submission.status, SolutionStatus::CheckFailed);
    assert_eq!(p.submission.build_error_log, "disk full");
}

#[test]
fn style_errors_end_pipeline() {
    let mut p = SubmissionPipeline::new(submission());
    p.on_stored(Ok(submission()));
    let errors = vec![SourceProcessError { file_name: "bad.c".to_string(), message: "1c1\n".to_string() }];
    let log = p.on_style_checked(Err(BuilderError::UserError(errors)));
    assert_eq!(p.stage, Stage::Done);
    assert_eq!(p.submission.status, SolutionStatus::StyleCheckError);
    assert_eq!(p.submission.style_error_log, "bad.c\n1c1");
    assert_eq!(log, Some("\n\nbad.c\n1c1\n".to_string()));
}

#[test]
fn build_system_error_is_check_failed() {
    let mut p = SubmissionPipeline::new(submission());
    p.on_stored(Ok(submission()));
    p.on_style_checked(Ok(()));
    let log = p.on_built(Err(BuilderError::SystemError("exec failed".to_string())));
    assert_eq!(p.stage, Stage::Done);
    assert_eq!(p.submission.status, SolutionStatus::CheckFailed);
    assert_eq!(p.submission.build_error_log, "exec failed");
    assert_eq!(log, Some("exec failed".to_string()));
}

#[test]
fn merge_through_trait() {
    let base = GradingLimits::default_value();
    let mut over = GradingLimits::default();
    over.proc_count_limit = 50;
    let merged = UpdatedWith::updated_with(&base, &over);
    assert_eq!(merged.proc_count_limit, 50);
    assert_eq!(merged.fd_count_limit, 20);
}

#[test]
fn token_header() {
    let i = YajudgeInterceptor::new("SECRET-REDACTED".to_string());
    let (name, value) = i.header();
    assert_eq!(name, "token");
    assert_eq!(value, "SECRET-REDACTED");
}
