use grader::limits::GradingLimits;
use grader::model::{CodeStyle, File, FileSet, GradingOptions, SolutionStatus, Submission, TestCase};
use grader::build_props::LanguageBuildProperties;
use grader::rpc::{ContentStatus, ProblemContentResponse};
use grader::storage::{
    parse_timestamp, prepare_binary, replace_colons, timestamp_text, LocationsConfig, StorageManager,
};
use grader::yaml::{
    args_file, limits_from_yaml, limits_to_yaml, options_from_yaml, options_to_yaml,
    submission_from_yaml, submission_to_yaml, YamlValue,
};

fn storage() -> StorageManager {
    StorageManager::new(LocationsConfig {
        working_directory: "/var/work".to_string(),
        cache_directory: "/var/cache/".to_string(),
        system_root: "/opt/system".to_string(),
    })
}

fn submission() -> Submission {
    Submission {
        id: 42,
        course_data_id: "cpp-2024".to_string(),
        problem_id: "week1:hello".to_string(),
        solution_files: FileSet {
            files: vec![
                File { name: "main.c".to_string(), data: b"int main(){}".to_vec() },
                File { name: "util.h".to_string(), data: b"#pragma once".to_vec() },
            ],
        },
        status: SolutionStatus::AnyStatusOrNull,
        style_error_log: String::new(),
        build_error_log: String::new(),
    }
}

#[test]
fn canonical_paths() {
    let s = storage();
    assert_eq!(
        s.get_problem_root(&"cpp-2024".to_string(), &"week1:hello".to_string()),
        "/var/cache/cpp-2024/week1/hello"
    );
    assert_eq!(s.get_submission_root(42), "/var/work/000042");
    assert_eq!(s.get_submission_root(1234567), "/var/work/1234567");
    assert_eq!(s.get_submission_root(-5), "/var/work/-00005");
    assert_eq!(s.get_system_root(), "/opt/system");
    assert_eq!(replace_colons("a:b:c"), "a/b/c");
}

#[test]
fn timestamp_round_trip() {
    for t in [0i64, 1700000000, -17, i64::MAX, i64::MIN] {
        let text = timestamp_text(t);
        assert!(text.ends_with('\n'));
        assert_eq!(parse_timestamp(Some(text.as_str())), t);
    }
    assert_eq!(timestamp_text(1700000000), "1700000000\n");
}

#[test]
fn unreadable_timestamp_is_a_miss() {
    assert_eq!(parse_timestamp(None), 0);
    assert_eq!(parse_timestamp(Some("garbage")), 0);
    assert_eq!(parse_timestamp(Some("")), 0);
    assert_eq!(parse_timestamp(Some("99999999999999999999")), 0);
    assert_eq!(parse_timestamp(Some("  +12 \n")), 12);
}

#[test]
fn submission_metadata_round_trip() {
    let s = submission();
    let y = submission_to_yaml(&s);
    let back = submission_from_yaml(&y).unwrap();
    assert_eq!(back.id, 42);
    assert_eq!(back.course_data_id, "cpp-2024");
    assert_eq!(back.problem_id, "week1:hello");
    let names: Vec<String> = back.solution_files.files.iter().map(|f| f.name.clone()).collect();
    assert_eq!(names, vec!["main.c".to_string(), "util.h".to_string()]);
}

#[test]
fn submission_metadata_needs_id() {
    let y = YamlValue::Hash(vec![("problem_id".to_string(), YamlValue::Text("p".to_string()))]);
    assert!(submission_from_yaml(&y).is_none());
    let y = YamlValue::Hash(vec![("id".to_string(), YamlValue::Integer(7))]);
    let s = submission_from_yaml(&y).unwrap();
    assert_eq!(s.id, 7);
    assert!(s.problem_id.is_empty());
    assert!(s.solution_files.files.is_empty());
}

#[test]
fn submission_store_plan() {
    let plan = storage().plan_submission_store(&submission());
    assert_eq!(plan.build_dir, "/var/work/000042/upperdir/build");
    assert_eq!(plan.writes.len(), 2);
    assert_eq!(plan.writes[0].path, "/var/work/000042/upperdir/build/main.c");
    assert_eq!(plan.writes[0].data, b"int main(){}".to_vec());
    assert!(!plan.writes[1].gzipped);
    assert_eq!(plan.metadata_path, "/var/work/000042/submission.yaml");
}

fn options() -> GradingOptions {
    let mut limits = GradingLimits::default();
    limits.real_time_limit_sec = 2;
    GradingOptions {
        limits: Some(limits),
        test_cases: vec![
            TestCase {
                command_line_arguments: "-v".to_string(),
                stdin_data: Some(File { name: "001.dat".to_string(), data: Vec::new() }),
                stdout_reference: Some(File { name: "001.ans".to_string(), data: Vec::new() }),
                stderr_reference: None,
            },
            TestCase {
                command_line_arguments: String::new(),
                stdin_data: None,
                stdout_reference: None,
                stderr_reference: None,
            },
        ],
        code_styles: vec![CodeStyle {
            source_file_suffix: "c".to_string(),
            style_file: Some(File { name: ".clang-format".to_string(), data: b"BasedOnStyle: LLVM".to_vec() }),
        }],
        executable_target: 10,
        build_system: 20,
        build_properties: LanguageBuildProperties::new(),
    }
}

#[test]
fn problem_store_plan() {
    let response = ProblemContentResponse {
        course_data_id: "c".to_string(),
        problem_id: "a:b".to_string(),
        last_modified: 1700000123,
        status: ContentStatus::HasData,
        grading_options: Some(options()),
    };
    let plan = storage().plan_problem_store(&response).unwrap();
    assert_eq!(plan.root, "/var/cache/c/a/b");
    assert_eq!(plan.tests_dir, "/var/cache/c/a/b/lowerdir/tests");
    assert_eq!(plan.build_dir, "/var/cache/c/a/b/lowerdir/build");
    let paths: Vec<&str> = plan.writes.iter().map(|w| w.path.as_str()).collect();
    assert_eq!(
        paths,
        vec![
            "/var/cache/c/a/b/lowerdir/tests/001.dat",
            "/var/cache/c/a/b/lowerdir/tests/001.ans",
            "/var/cache/c/a/b/lowerdir/tests/001.args",
            "/var/cache/c/a/b/lowerdir/build/.clang-format",
        ]
    );
    assert!(plan.writes[0].gzipped);
    assert!(!plan.writes[2].gzipped);
    assert_eq!(plan.writes[2].data, b"-v".to_vec());
    assert_eq!(plan.timestamp_path, "/var/cache/c/a/b/timestamp.txt");
    assert_eq!(plan.timestamp, "1700000123\n");
    assert_eq!(parse_timestamp(Some(plan.timestamp.as_str())), response.last_modified);
}

#[test]
fn problem_store_needs_options() {
    let response = ProblemContentResponse {
        course_data_id: "c".to_string(),
        problem_id: "p".to_string(),
        last_modified: 1,
        status: ContentStatus::HasData,
        grading_options: None,
    };
    assert!(storage().plan_problem_store(&response).is_err());
}

#[test]
fn options_yaml_round_trip() {
    let y = options_to_yaml(&options());
    let read = options_from_yaml(&y, "/var/cache/c/p").unwrap();
    assert_eq!(read.options.build_system, 20);
    assert_eq!(read.options.limits.unwrap().real_time_limit_sec, 2);
    assert_eq!(read.options.test_cases.len(), 2);
    assert_eq!(read.options.test_cases[0].stdin_data.as_ref().unwrap().name, "001.dat");
    assert!(read.options.test_cases[1].stdout_reference.is_none());
    assert_eq!(read.options.code_styles[0].source_file_suffix, "c");
    assert_eq!(read.options.code_styles[0].style_file.as_ref().unwrap().name, ".clang-format");
    assert_eq!(read.args_files, vec![(0usize, "/var/cache/c/p/lowerdir/tests/001.args".to_string())]);
}

#[test]
fn unknown_build_system_name_refused() {
    let y = YamlValue::Hash(vec![("build_system".to_string(), YamlValue::Text("Bazel".to_string()))]);
    assert!(options_from_yaml(&y, "/p").is_err());
}

#[test]
fn limits_yaml_round_trip() {
    let l = GradingLimits::default_value();
    assert_eq!(limits_from_yaml(&limits_to_yaml(&l)), l);
    let partial = YamlValue::Hash(vec![
        ("cpu_time_limit_sec".to_string(), YamlValue::Integer(3)),
        ("allow_network".to_string(), YamlValue::Boolean(true)),
        ("fd_count_limit".to_string(), YamlValue::Text("many".to_string())),
    ]);
    let r = limits_from_yaml(&partial);
    assert_eq!(r.cpu_time_limit_sec, 3);
    assert!(r.allow_network);
    assert_eq!(r.fd_count_limit, 0);
    assert_eq!(r.stack_size_limit_mb, 0);
}

#[test]
fn args_file_names() {
    assert_eq!(args_file(1), "001.args");
    assert_eq!(args_file(12), "012.args");
    assert_eq!(args_file(1234), "1234.args");
}

#[test]
fn gzip_data_is_decoded() {
    // "hi\n" compressed with gzip
    let gz: Vec<u8> = vec![
        0x1f, 0x8b, 0x08, 0x00, 0x00, 0x00, 0x00, 0x00, 0x00, 0x03, 0xcb, 0xc8, 0xe4, 0x02, 0x00,
        0x7a, 0x7a, 0x6f, 0xed, 0x03, 0x00, 0x00, 0x00,
    ];
    assert_eq!(prepare_binary(&gz, true).unwrap(), b"hi\n".to_vec());
    assert_eq!(prepare_binary(&gz, false).unwrap(), gz);
    assert!(prepare_binary(&b"not gzip".to_vec(), true).is_err());
}

#[test]
fn limits_override() {
    let base = GradingLimits::default_value();
    let mut over = GradingLimits::default();
    over.real_time_limit_sec = 10;
    over.stderr_size_limit_mb = 3;
    over.allow_network = true;
    let m = base.updated_with(&over);
    assert_eq!(m.real_time_limit_sec, 10);
    assert_eq!(m.stderr_size_limit_mb, 3);
    assert_eq!(m.cpu_time_limit_sec, 1);
    assert!(m.allow_network);
    assert_eq!(base.updated_with(&GradingLimits::default()), base);
}

#[test]
fn problem_store_refuses_unknown_build_system() {
    let mut o = options();
    o.build_system = 7;
    let response = ProblemContentResponse {
        course_data_id: "c".to_string(),
        problem_id: "p".to_string(),
        last_modified: 1,
        status: ContentStatus::HasData,
        grading_options: Some(o),
    };
    assert!(storage().plan_problem_store(&response).is_err());
}

#[test]
fn property_keys_lookup() {
    let mut p = LanguageBuildProperties::new();
    p.insert("compiler".to_string(), "gcc".to_string());
    p.insert("compiler".to_string(), "clang".to_string());
    assert!(p.contains_key("compiler"));
    assert!(!p.contains_key("linker"));
    assert_eq!(p.entries.len(), 1);
    assert_eq!(p.get("compiler").unwrap(), "clang");
}
