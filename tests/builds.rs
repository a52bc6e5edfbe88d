use grader::build_props::{set_to_string, string_to_set, BuildProperties, LanguageBuildProperties};
use grader::builder::{
    can_build, detect_language, effective_properties, get_sanitizer_options, has_file_by_pattern,
    is_compilable, plan_targets, BuildRun, BuilderError, Language, SourceProcessError, TargetBuild,
};
use grader::model::{ExecutableTarget, File, FileSet, SolutionStatus, Submission};
use grader::processor::{after_build, after_style_check, create_builder, error_report, BuilderKind, Verdict};
use grader::runner::{CommandOutput, ExitResult};
use grader::style::{StyleAction, StyleCheck};
use grader::model::CodeStyle;

fn files(names: &[&str]) -> FileSet {
    FileSet {
        files: names.iter().map(|n| File { name: n.to_string(), data: Vec::new() }).collect(),
    }
}

fn props(pairs: &[(&str, &str)]) -> LanguageBuildProperties {
    let mut p = LanguageBuildProperties::new();
    for (k, v) in pairs {
        p.insert(k.to_string(), v.to_string());
    }
    p
}

fn ok_output(stdout: &[u8]) -> CommandOutput {
    CommandOutput { exit_status: ExitResult::Finished(0), stdout: stdout.to_vec(), stderr: Vec::new() }
}

fn failed_output(code: u8, stdout: &[u8], stderr: &[u8]) -> CommandOutput {
    CommandOutput { exit_status: ExitResult::Finished(code), stdout: stdout.to_vec(), stderr: stderr.to_vec() }
}

fn submission(names: &[&str]) -> Submission {
    Submission {
        id: 42,
        course_data_id: "course".to_string(),
        problem_id: "p:1".to_string(),
        solution_files: files(names),
        status: SolutionStatus::AnyStatusOrNull,
        style_error_log: String::new(),
        build_error_log: String::new(),
    }
}

#[test]
fn tokens_as_sets() {
    let s = string_to_set(&"  -O2 -g\t-O2\n-Wall ".to_string());
    assert_eq!(s, vec!["-O2".to_string(), "-g".to_string(), "-Wall".to_string()]);
    assert_eq!(set_to_string(&s), "-O2 -g -Wall");
    assert_eq!(set_to_string(&Vec::new()), "");
    assert!(string_to_set(&"   ".to_string()).is_empty());
}

#[test]
fn merge_adds_and_disables() {
    let base = props(&[("compile_options", "-O2 -g -Werror"), ("compiler", "clang")]);
    let over = props(&[("compile_options", "-Wall -g"), ("disable_compile_options", "-Werror")]);
    let merged = base.updated_with(&over);
    assert_eq!(merged.get("compile_options").unwrap(), "-O2 -g -Wall");
    assert_eq!(merged.get("compiler").unwrap(), "clang");
    assert!(merged.get("disable_compile_options").is_none());
}

#[test]
fn disabling_own_tokens_yields_default_without_them() {
    let base = props(&[("sanitizers", "undefined address")]);
    let over = props(&[("sanitizers", "address memory"), ("disable_sanitizers", "address memory")]);
    assert_eq!(base.updated_with(&over).get("sanitizers").unwrap(), "undefined");
}

#[test]
fn merge_is_order_independent_as_sets() {
    let a = props(&[("link_options", "-lm -lpthread")]);
    let b = props(&[("link_options", "-lpthread -lrt -lm")]);
    let ab = a.updated_with(&b);
    let ba = props(&[("link_options", "-lpthread -lrt -lm")]).updated_with(&props(&[("link_options", "-lm -lpthread")]));
    let mut x = string_to_set(ab.get("link_options").unwrap());
    let mut y = string_to_set(ba.get("link_options").unwrap());
    x.sort();
    y.sort();
    assert_eq!(x, y);
}

#[test]
fn default_build_properties() {
    let d = BuildProperties::default();
    assert_eq!(d.c.get("compiler").unwrap(), "clang");
    assert_eq!(d.cxx.get("compiler").unwrap(), "clang++");
    assert_eq!(d.s.get("compile_options").unwrap(), "-O0 -g -Werror");
    assert_eq!(d.java.get("compiler").unwrap(), "javac");
    assert_eq!(d.c.get("sanitizers").unwrap(), "undefined address");
    assert!(d.s.get("sanitizers").is_none());
}

#[test]
fn detection_by_suffix() {
    assert!(has_file_by_pattern(&files(&["a.txt", "main.c"]), ".c"));
    assert!(!has_file_by_pattern(&files(&["main.cs"]), ".c"));
    assert_eq!(detect_language(&files(&["a.c", "b.cpp"])), Some(Language::Cxx));
    assert_eq!(detect_language(&files(&["a.c", "b.S"])), Some(Language::GnuAsm));
    assert_eq!(detect_language(&files(&["a.c"])), Some(Language::C));
    assert_eq!(detect_language(&files(&["a.py"])), None);
    assert!(can_build(&files(&["x.cc"])));
    assert!(!can_build(&files(&["Main.java"])));
}

#[test]
fn compilable_by_extension() {
    for n in ["a.c", "b.s", "c.S", "d.cxx", "e.cpp", "f.cc", "dir/g.c"] {
        assert!(is_compilable(&n.to_string()), "{}", n);
    }
    for n in ["a.h", ".c", "c", "a.c.txt"] {
        assert!(!is_compilable(&n.to_string()), "{}", n);
    }
}

#[test]
fn sanitizer_flags_and_targets() {
    let p = props(&[("sanitizers", "undefined address")]);
    assert!(get_sanitizer_options(&p, ExecutableTarget::Native).is_empty());
    assert_eq!(
        get_sanitizer_options(&p, ExecutableTarget::NativeWithSanitizers),
        vec![
            "-fsanitize=undefined".to_string(),
            "-fsanitize=address".to_string(),
            "-fno-sanitize-recover=all".to_string()
        ]
    );
    let plans = plan_targets(&p, ExecutableTarget::NativeWithSanitizers);
    assert_eq!(plans.len(), 1);
    assert_eq!(plans[0].artifact, "solution-san");
    let plans = plan_targets(&p, ExecutableTarget::NativeWithSanitizersAndValgrind);
    assert_eq!(plans.len(), 2);
    assert_eq!(plans[0].artifact, "solution");
    assert_eq!(plans[1].target, ExecutableTarget::NativeWithSanitizers);
    let nostd = props(&[("sanitizers", "address"), ("link_options", "-nostdlib")]);
    let plans = plan_targets(&nostd, ExecutableTarget::NativeWithSanitizers);
    assert_eq!(plans.len(), 1);
    assert_eq!(plans[0].target, ExecutableTarget::Native);
}

#[test]
fn compile_error_collected_per_file() {
    let p = props(&[("compiler", "clang++"), ("compile_options", "-O2")]);
    let plans = plan_targets(&p, ExecutableTarget::Native);
    let fs = files(&["broken.cpp", "ok.cpp", "notes.txt"]);
    let mut t = TargetBuild::new(&p, &plans[0], &fs);
    assert!(t.is_running());
    let c = t.next_command();
    assert_eq!(c.program, "clang++");
    assert_eq!(c.arguments, vec!["-O2", "-c", "-o", "broken.cpp.o", "broken.cpp"]);
    t.record(Ok(failed_output(1, b"", b"broken.cpp:1:13: error: use of undeclared identifier")));
    let c = t.next_command();
    assert_eq!(c.arguments, vec!["-O2", "-c", "-o", "ok.cpp.o", "ok.cpp"]);
    t.record(Ok(ok_output(b"")));
    assert!(!t.is_running());
    match t.finish() {
        Err(BuilderError::UserError(v)) => {
            assert_eq!(v.len(), 1);
            assert_eq!(v[0].file_name, "broken.cpp");
            assert!(v[0].message.contains("broken.cpp"));
            let mut s = submission(&["broken.cpp"]);
            let outcome = after_build(&mut s, Err(BuilderError::UserError(v)));
            assert_eq!(outcome.verdict, Verdict::Finished);
            assert_eq!(s.status, SolutionStatus::CompilationError);
            assert!(s.build_error_log.starts_with("broken.cpp\n"));
            assert!(s.build_error_log.contains("undeclared identifier"));
        }
        other => panic!("unexpected {:?}", other),
    }
}

#[test]
fn successful_build_links_objects() {
    let p = props(&[("compiler", "clang"), ("link_options", "-lm")]);
    let plans = plan_targets(&p, ExecutableTarget::Native);
    let mut run = BuildRun::new(p, plans, files(&["a.c", "b.c"]));
    let mut commands = Vec::new();
    while let Some(c) = run.next_command() {
        commands.push(c.to_string());
        run.record(Ok(ok_output(b"")));
    }
    assert_eq!(
        commands,
        vec!["clang -c -o a.c.o a.c", "clang -c -o b.c.o b.c", "clang -lm -o solution a.c.o b.c.o"]
    );
    let artifacts = run.finish().unwrap();
    assert_eq!(artifacts.len(), 1);
    assert_eq!(artifacts[0].file_names, vec!["solution".to_string()]);
}

#[test]
fn launch_failure_is_system_error() {
    let p = props(&[("compiler", "clang")]);
    let plans = plan_targets(&p, ExecutableTarget::Native);
    let mut t = TargetBuild::new(&p, &plans[0], &files(&["a.c", "b.c"]));
    t.next_command();
    t.record(Err("fork failed".to_string()));
    assert!(!t.is_running());
    assert!(matches!(t.finish(), Err(BuilderError::SystemError(m)) if m == "fork failed"));
}

#[test]
fn missing_compiler_is_system_error() {
    let p = props(&[]);
    let plans = plan_targets(&p, ExecutableTarget::Native);
    let t = TargetBuild::new(&p, &plans[0], &files(&["a.c"]));
    assert!(!t.is_running());
    assert!(matches!(t.finish(), Err(BuilderError::SystemError(m)) if m == "Compiler not set in configuration"));
}

#[test]
fn link_failure_names_artifact() {
    let p = props(&[("compiler", "clang")]);
    let plans = plan_targets(&p, ExecutableTarget::Native);
    let mut t = TargetBuild::new(&p, &plans[0], &files(&["a.c"]));
    t.next_command();
    t.record(Ok(ok_output(b"")));
    let link = t.next_command();
    assert_eq!(link.arguments, vec!["-o", "solution", "a.c.o"]);
    t.record(Ok(failed_output(1, b"", &[0xff, 0xfe])));
    match t.finish() {
        Err(BuilderError::UserError(v)) => {
            assert_eq!(v[0].file_name, "solution");
            assert_eq!(v[0].message, "clang returned non-UTF-8 error output");
        }
        other => panic!("unexpected {:?}", other),
    }
}

fn styles() -> Vec<CodeStyle> {
    vec![CodeStyle { source_file_suffix: "C".to_string(), style_file: Some(File { name: ".clang-format".to_string(), data: Vec::new() }) }]
}

#[test]
fn happy_style_check() {
    let mut check = StyleCheck::new(&files(&["ok.c", "readme.md"]), &styles(), "/work/000042");
    match check.next_action() {
        StyleAction::Run(c) => assert_eq!(c.to_string(), "clang-format -style=file ok.c"),
        _ => panic!("expected clang-format"),
    }
    check.on_command(Ok(ok_output(b"int main(){return 0;}\n")));
    match check.next_action() {
        StyleAction::Store(path, data) => {
            assert_eq!(path, "/work/000042/upperdir/build/ok.c.formatted");
            assert_eq!(data, b"int main(){return 0;}\n".to_vec());
        }
        _ => panic!("expected a store"),
    }
    check.on_stored(Ok(()));
    match check.next_action() {
        StyleAction::Run(c) => assert_eq!(c.to_string(), "diff ok.c ok.c.formatted"),
        _ => panic!("expected diff"),
    }
    check.on_command(Ok(ok_output(b"")));
    assert!(matches!(check.next_action(), StyleAction::Done));
    let result = check.finish();
    assert!(result.is_ok());
    let mut s = submission(&["ok.c"]);
    let outcome = after_style_check(&mut s, result);
    assert_eq!(outcome.verdict, Verdict::Proceed);
    assert_eq!(s.status, SolutionStatus::AnyStatusOrNull);
}

#[test]
fn style_violation() {
    let mut check = StyleCheck::new(&files(&["bad.c"]), &styles(), "/work/000007");
    check.next_action();
    check.on_command(Ok(ok_output(b"int main() { return 0; }\n")));
    check.next_action();
    check.on_stored(Ok(()));
    check.next_action();
    let diff = b"1c1\n< int main(){\n---\n> int main() {\n";
    check.on_command(Ok(failed_output(1, diff, b"")));
    assert!(matches!(check.next_action(), StyleAction::Done));
    let mut s = submission(&["bad.c"]);
    let outcome = after_style_check(&mut s, check.finish());
    assert_eq!(outcome.verdict, Verdict::Finished);
    assert_eq!(s.status, SolutionStatus::StyleCheckError);
    assert!(s.style_error_log.starts_with("bad.c\n1c1"));
    assert!(s.style_error_log.contains("> int main() {"));
    assert!(outcome.log_text.unwrap().starts_with("\n\nbad.c\n"));
}

#[test]
fn clang_format_failure_is_system_error() {
    let mut check = StyleCheck::new(&files(&["a.c"]), &styles(), "/w");
    check.next_action();
    check.on_command(Ok(failed_output(2, b"", b"")));
    assert!(matches!(check.next_action(), StyleAction::Done));
    let mut s = submission(&["a.c"]);
    let outcome = after_style_check(&mut s, check.finish());
    assert_eq!(outcome.verdict, Verdict::Failed("clang-format failed: Exited with code 2".to_string()));
    assert_eq!(s.status, SolutionStatus::AnyStatusOrNull);
}

#[test]
fn report_of_errors() {
    let errors = vec![
        SourceProcessError { file_name: "a.c".to_string(), message: "m1".to_string() },
        SourceProcessError { file_name: "b.c".to_string(), message: "m2".to_string() },
    ];
    assert_eq!(errors[0].to_string(), "a.c\nm1");
    assert_eq!(error_report(&errors), "\n\na.c\nm1\n\nb.c\nm2");
}

#[test]
fn builder_choice() {
    assert_eq!(create_builder(0, &files(&["a.c"])), Ok(BuilderKind::Clang));
    assert_eq!(create_builder(0, &files(&["a.py"])), Ok(BuilderKind::Void));
    assert_eq!(create_builder(20, &files(&["a.py"])), Ok(BuilderKind::Clang));
    assert_eq!(create_builder(1, &files(&["a.c"])), Ok(BuilderKind::Void));
    assert_eq!(create_builder(7, &files(&["a.c"])), Err("Wrong build system enum value 7".to_string()));
    assert_eq!(
        create_builder(40, &files(&["a.c"])),
        Err("Build system CMakeProject not implemented yet".to_string())
    );
}

#[test]
fn effective_properties_use_language_bucket() {
    let d = BuildProperties::default();
    let extra = props(&[("compile_options", "-std=c++20")]);
    let e = effective_properties(&d, &files(&["main.cpp"]), &extra).unwrap();
    assert_eq!(e.get("compiler").unwrap(), "clang++");
    assert_eq!(e.get("compile_options").unwrap(), "-O2 -g -Werror -std=c++20");
    assert!(effective_properties(&d, &files(&["main.py"]), &extra).is_none());
}
