use grader::config::{
    locations_from_yaml, log_level_from_string, resolve_relative, token_from_file_text, GraderConfig,
    JobsConfig, LogConfig, LogLevel, RpcConfig, TokenSource,
};
use grader::jobs::{free_workers, Dispatch, JobsLedger};
use grader::limits::GradingLimits;
use grader::model::{File, FileSet, SolutionStatus, Submission};
use grader::processor::fail_submission;
use grader::rpc::{
    endpoint_address, grading_platform, problem_request, service_status, should_store,
    stream_recovery, Arch, ContentStatus, ProblemContentResponse, RpcCode, ServiceStatus,
    StreamRecovery, RECONNECT_TIMEOUT,
};
use grader::text::{decimal_i64, parse_i64, split_words, trimmed};
use grader::yaml::YamlValue;

fn text(s: &str) -> YamlValue {
    YamlValue::Text(s.to_string())
}

fn hash(entries: Vec<(&str, YamlValue)>) -> YamlValue {
    YamlValue::Hash(entries.into_iter().map(|(k, v)| (k.to_string(), v)).collect())
}

fn submission(id: i64, names: &[&str]) -> Submission {
    Submission {
        id,
        course_data_id: "c".to_string(),
        problem_id: "p".to_string(),
        solution_files: FileSet {
            files: names.iter().map(|n| File { name: n.to_string(), data: Vec::new() }).collect(),
        },
        status: SolutionStatus::AnyStatusOrNull,
        style_error_log: String::new(),
        build_error_log: String::new(),
    }
}

#[test]
fn duplicate_submission_dropped() {
    let mut ledger = JobsLedger::new();
    assert_eq!(ledger.on_submission(42), Dispatch::Launch);
    assert_eq!(ledger.on_submission(42), Dispatch::DropDuplicate);
    assert!(ledger.is_in_progress(42));
    ledger.on_completed(42);
    assert!(!ledger.is_in_progress(42));
    assert_eq!(ledger.on_submission(42), Dispatch::Launch);
}

#[test]
fn distinct_submissions_run_together() {
    let mut ledger = JobsLedger::new();
    assert_eq!(ledger.on_submission(1), Dispatch::Launch);
    assert_eq!(ledger.on_submission(2), Dispatch::Launch);
    ledger.on_completed(1);
    assert!(ledger.is_in_progress(2));
}

#[test]
fn free_worker_count() {
    assert_eq!(free_workers(8, 3), 5);
    assert_eq!(free_workers(8, 8), 0);
    assert_eq!(free_workers(2, 5), 0);
}

#[test]
fn status_from_free_workers() {
    assert_eq!(service_status(3), (ServiceStatus::Idle, 3));
    assert_eq!(service_status(0), (ServiceStatus::Busy, 0));
}

#[test]
fn only_internal_errors_recover() {
    assert_eq!(stream_recovery(RpcCode::Internal), StreamRecovery::Reconnect(RECONNECT_TIMEOUT));
    assert_eq!(RECONNECT_TIMEOUT, 10);
    assert_eq!(stream_recovery(RpcCode::Unavailable), StreamRecovery::Fail);
    assert_eq!(stream_recovery(RpcCode::Unauthenticated), StreamRecovery::Fail);
}

#[test]
fn cache_hit_writes_nothing() {
    let r = ProblemContentResponse {
        course_data_id: "c".to_string(),
        problem_id: "p".to_string(),
        last_modified: 1700000000,
        status: ContentStatus::NotChanged,
        grading_options: None,
    };
    assert!(!should_store(1700000000, &r));
    let mut fresh = r.clone();
    fresh.status = ContentStatus::HasData;
    assert!(should_store(1700000000, &fresh));
    assert!(should_store(0, &fresh));
}

#[test]
fn problem_request_names_cached_version() {
    let q = problem_request(&submission(9, &["a.c"]), 123).unwrap();
    assert_eq!(q.course_data_id, "c");
    assert_eq!(q.problem_id, "p");
    assert_eq!(q.cached_timestamp, 123);
    assert_eq!(
        problem_request(&submission(9, &[]), 0).unwrap_err(),
        "Submission 9 has no solution files"
    );
}

#[test]
fn platforms() {
    assert_eq!(grading_platform("x86_64"), Some(Arch::X8664));
    assert_eq!(grading_platform("aarch64"), Some(Arch::Aarch64));
    assert_eq!(grading_platform("x86"), Some(Arch::X86));
    assert_eq!(grading_platform("arm"), Some(Arch::Armv7));
    assert_eq!(grading_platform("riscv64"), None);
}

#[test]
fn endpoints() {
    assert_eq!(endpoint_address(Some("grpc"), Some("judge"), None, "/"), Some("http://judge:80/".to_string()));
    assert_eq!(
        endpoint_address(Some("grpcs"), Some("judge.example"), Some(9095), ""),
        Some("https://judge.example:9095".to_string())
    );
    assert_eq!(endpoint_address(None, None, None, "/run/judge.sock"), Some("unix:///run/judge.sock".to_string()));
    assert_eq!(endpoint_address(Some("http"), None, None, "/"), None);
    assert_eq!(endpoint_address(Some("ws"), Some("h"), None, ""), Some("ws://h:0".to_string()));
}

#[test]
fn failed_submission_marked() {
    let mut s = submission(1, &["a.c"]);
    fail_submission(&mut s, "overlay mount refused".to_string());
    assert_eq!(s.status, SolutionStatus::CheckFailed);
    assert_eq!(s.build_error_log, "overlay mount refused");
}

#[test]
fn jobs_configuration() {
    let y = hash(vec![("workers", YamlValue::Integer(4)), ("arch_specific_only", YamlValue::Boolean(true))]);
    let j = JobsConfig::from_yaml_with_cpus(&y, 8);
    assert_eq!(j.workers, 4);
    assert!(j.arch_specific_only);
    assert_eq!(j.name, "default");
    assert_eq!(JobsConfig::from_yaml_with_cpus(&y, 2).workers, 2);
    assert_eq!(JobsConfig::from_yaml_with_cpus(&hash(vec![]), 6).workers, 6);
}

#[test]
fn locations_resolved() {
    let y = hash(vec![
        ("working_directory", text("work")),
        ("cache_directory", text("/abs/cache")),
        ("system_environment", text("sys")),
    ]);
    let l = locations_from_yaml("/etc/grader", &y).unwrap();
    assert_eq!(l.working_directory, "/etc/grader/work");
    assert_eq!(l.cache_directory, "/abs/cache");
    assert_eq!(l.system_root, "/etc/grader/sys");
    assert!(locations_from_yaml("/etc", &hash(vec![("cache_directory", text("c"))])).is_err());
    assert_eq!(resolve_relative("/a/", "b"), "/a/b");
}

#[test]
fn log_levels() {
    assert_eq!(log_level_from_string(&"INFO".to_string()), Some(LogLevel::Info));
    assert_eq!(log_level_from_string(&"fatal".to_string()), Some(LogLevel::Critical));
    assert_eq!(log_level_from_string(&"Warn".to_string()), Some(LogLevel::Warning));
    assert_eq!(log_level_from_string(&"trace".to_string()), Some(LogLevel::Trace));
    assert_eq!(log_level_from_string(&"verbose".to_string()), None);
    let c = LogConfig::from_yaml(&hash(vec![("path", text("stderr")), ("level", text("debug"))])).unwrap();
    assert_eq!(c.path, "stderr");
    assert_eq!(c.level, LogLevel::Debug);
    assert!(LogConfig::from_yaml(&hash(vec![("level", text("loud"))])).is_err());
}

#[test]
fn rpc_configuration() {
    let endpoints = hash(vec![("courses_content", text("grpc://a:1")), ("submissions", text("grpc://b:2"))]);
    let y = hash(vec![("endpoints", endpoints), ("private_token", text("SECRET-REDACTED"))]);
    let c = RpcConfig::from_yaml("/etc", &y).unwrap();
    assert_eq!(c.endpoints.courses_content_uri, "grpc://a:1");
    assert_eq!(c.endpoints.submissions_uri, "grpc://b:2");
    assert!(matches!(c.private_token, TokenSource::Inline(ref t) if t == "SECRET-REDACTED"));
    let endpoints = hash(vec![("courses_content", text("x")), ("submissions", text("y"))]);
    let y = hash(vec![("endpoints", endpoints), ("private_token_file", text("token.txt"))]);
    let c = RpcConfig::from_yaml("/etc", &y).unwrap();
    assert!(matches!(c.private_token, TokenSource::File(ref p) if p == "/etc/token.txt"));
    assert_eq!(token_from_file_text(" abc\n"), "abc");
}

#[test]
fn whole_configuration() {
    let endpoints = hash(vec![("courses_content", text("x")), ("submissions", text("y"))]);
    let rpc = hash(vec![("endpoints", endpoints), ("private_token", text("t"))]);
    let locations = hash(vec![
        ("working_directory", text("w")),
        ("cache_directory", text("c")),
        ("system_environment", text("s")),
    ]);
    let y = hash(vec![("rpc", rpc), ("locations", locations)]);
    let c = GraderConfig::from_yaml("/etc/g", &y).unwrap();
    assert_eq!(c.default_limits, GradingLimits::default_value());
    assert_eq!(c.log.level, LogLevel::Info);
    assert_eq!(c.locations.cache_directory, "/etc/g/c");
    assert_eq!(c.default_build_properties.c.get("compiler").unwrap(), "clang");
    assert!(GraderConfig::from_yaml("/etc", &hash(vec![])).is_err());
}

#[test]
fn text_helpers() {
    assert_eq!(decimal_i64(-1234), "-1234");
    assert_eq!(decimal_i64(0), "0");
    assert_eq!(parse_i64("-9223372036854775808"), Some(i64::MIN));
    assert_eq!(parse_i64("9223372036854775808"), None);
    assert_eq!(parse_i64("-"), None);
    assert_eq!(parse_i64("12a"), None);
    assert_eq!(trimmed("\t x y \n"), "x y");
    assert_eq!(split_words(" a  b\u{3000}c "), vec!["a".to_string(), "b".to_string(), "c".to_string()]);
}

#[test]
fn rpc_configuration_needs_endpoints_and_token() {
    assert!(RpcConfig::from_yaml("/etc", &hash(vec![("private_token", text("t"))])).is_err());
    let endpoints = hash(vec![("courses_content", text("x"))]);
    assert!(RpcConfig::from_yaml("/etc", &hash(vec![("endpoints", endpoints), ("private_token", text("t"))])).is_err());
    let endpoints = hash(vec![("courses_content", text("x")), ("submissions", text("y"))]);
    assert!(RpcConfig::from_yaml("/etc", &hash(vec![("endpoints", endpoints)])).is_err());
}

#[test]
fn default_pool_uses_cpus() {
    let j = JobsConfig::default();
    assert!(j.workers >= 1);
    assert!(!j.arch_specific_only);
    let from_empty = JobsConfig::from_yaml(&hash(vec![]));
    assert_eq!(from_empty.workers, j.workers);
}
