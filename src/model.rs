//! The logical messages that the worker exchanges with the coordinator.

use vstd::prelude::*;

use crate::build_props::LanguageBuildProperties;
use crate::limits::GradingLimits;

verus! {

/// A named blob: a source file, a test stream, a style file.
#[derive(Clone, Debug)]
pub struct File {
    pub name: String,
    pub data: Vec<u8>,
}

#[derive(Clone, Debug)]
pub struct FileSet {
    pub files: Vec<File>,
}

/// Statuses that a submission may carry.
#[derive(Clone, Copy, Debug, PartialEq, Eq, Structural)]
pub enum SolutionStatus {
    AnyStatusOrNull,
    StyleCheckError,
    CompilationError,
    WrongAnswer,
    SummonForDefence,
    PendingReview,
    CodeReviewRejected,
    Disqualified,
    CheckFailed,
    RuntimeError,
    TimeLimit,
    ValgrindErrors,
    Accepted,
    HardDeadlinePassed,
}

impl SolutionStatus {
    /// The status's wire code.
    pub open spec fn spec_code(self) -> i32 {
        match self {
            SolutionStatus::AnyStatusOrNull => 0,
            SolutionStatus::StyleCheckError => 3,
            SolutionStatus::CompilationError => 4,
            SolutionStatus::WrongAnswer => 5,
            SolutionStatus::SummonForDefence => 6,
            SolutionStatus::PendingReview => 7,
            SolutionStatus::CodeReviewRejected => 8,
            SolutionStatus::Disqualified => 12,
            SolutionStatus::CheckFailed => 13,
            SolutionStatus::RuntimeError => 14,
            SolutionStatus::TimeLimit => 15,
            SolutionStatus::ValgrindErrors => 16,
            SolutionStatus::Accepted => 100,
            SolutionStatus::HardDeadlinePassed => 300,
        }
    }

    /// The status's wire code.
    pub fn code(&self) -> (r: i32)
        ensures
            r == self.spec_code(),
    {
        match self {
            SolutionStatus::AnyStatusOrNull => 0,
            SolutionStatus::StyleCheckError => 3,
            SolutionStatus::CompilationError => 4,
            SolutionStatus::WrongAnswer => 5,
            SolutionStatus::SummonForDefence => 6,
            SolutionStatus::PendingReview => 7,
            SolutionStatus::CodeReviewRejected => 8,
            SolutionStatus::Disqualified => 12,
            SolutionStatus::CheckFailed => 13,
            SolutionStatus::RuntimeError => 14,
            SolutionStatus::TimeLimit => 15,
            SolutionStatus::ValgrindErrors => 16,
            SolutionStatus::Accepted => 100,
            SolutionStatus::HardDeadlinePassed => 300,
        }
    }

    /// The status with a wire code, if there is one.
    pub fn from_code(code: i32) -> (r: Option<SolutionStatus>)
        ensures
            r matches Some(s) ==> s.spec_code() == code,
            r is None ==> forall|s: SolutionStatus| s.spec_code() != code,
    {
        match code {
            0 => Some(SolutionStatus::AnyStatusOrNull),
            3 => Some(SolutionStatus::StyleCheckError),
            4 => Some(SolutionStatus::CompilationError),
            5 => Some(SolutionStatus::WrongAnswer),
            6 => Some(SolutionStatus::SummonForDefence),
            7 => Some(SolutionStatus::PendingReview),
            8 => Some(SolutionStatus::CodeReviewRejected),
            12 => Some(SolutionStatus::Disqualified),
            13 => Some(SolutionStatus::CheckFailed),
            14 => Some(SolutionStatus::RuntimeError),
            15 => Some(SolutionStatus::TimeLimit),
            16 => Some(SolutionStatus::ValgrindErrors),
            100 => Some(SolutionStatus::Accepted),
            300 => Some(SolutionStatus::HardDeadlinePassed),
            _ => None,
        }
    }
}

/// How a submission is built.
#[derive(Clone, Copy, Debug, PartialEq, Eq, Structural)]
pub enum BuildSystem {
    AutodetectBuild,
    SkipBuild,
    PythonCheckers,
    ClangToolchain,
    MakefileProject,
    CMakeProject,
    GoLangProject,
    JavaPlainProject,
    MavenProject,
}

/// The build system's wire code.
pub open spec fn build_system_code(b: BuildSystem) -> i32 {
    match b {
        BuildSystem::AutodetectBuild => 0,
        BuildSystem::SkipBuild => 1,
        BuildSystem::PythonCheckers => 10,
        BuildSystem::ClangToolchain => 20,
        BuildSystem::MakefileProject => 30,
        BuildSystem::CMakeProject => 40,
        BuildSystem::GoLangProject => 50,
        BuildSystem::JavaPlainProject => 60,
        BuildSystem::MavenProject => 61,
    }
}

/// The build system's name in configuration files.
pub open spec fn build_system_name(b: BuildSystem) -> Seq<char> {
    match b {
        BuildSystem::AutodetectBuild => "AutodetectBuild"@,
        BuildSystem::SkipBuild => "SkipBuild"@,
        BuildSystem::PythonCheckers => "PythonCheckers"@,
        BuildSystem::ClangToolchain => "ClangToolchain"@,
        BuildSystem::MakefileProject => "MakefileProject"@,
        BuildSystem::CMakeProject => "CMakeProject"@,
        BuildSystem::GoLangProject => "GoLangProject"@,
        BuildSystem::JavaPlainProject => "JavaPlainProject"@,
        BuildSystem::MavenProject => "MavenProject"@,
    }
}

impl BuildSystem {
    /// The build system's wire code.
    pub fn code(&self) -> (r: i32)
        ensures
            r == build_system_code(*self),
    {
        match self {
            BuildSystem::AutodetectBuild => 0,
            BuildSystem::SkipBuild => 1,
            BuildSystem::PythonCheckers => 10,
            BuildSystem::ClangToolchain => 20,
            BuildSystem::MakefileProject => 30,
            BuildSystem::CMakeProject => 40,
            BuildSystem::GoLangProject => 50,
            BuildSystem::JavaPlainProject => 60,
            BuildSystem::MavenProject => 61,
        }
    }

    /// The build system with a wire code, if there is one.
    pub fn from_code(code: i32) -> (r: Option<BuildSystem>)
        ensures
            r matches Some(b) ==> build_system_code(b) == code,
            r is None ==> forall|b: BuildSystem| build_system_code(b) != code,
    {
        match code {
            0 => Some(BuildSystem::AutodetectBuild),
            1 => Some(BuildSystem::SkipBuild),
            10 => Some(BuildSystem::PythonCheckers),
            20 => Some(BuildSystem::ClangToolchain),
            30 => Some(BuildSystem::MakefileProject),
            40 => Some(BuildSystem::CMakeProject),
            50 => Some(BuildSystem::GoLangProject),
            60 => Some(BuildSystem::JavaPlainProject),
            61 => Some(BuildSystem::MavenProject),
            _ => None,
        }
    }

    /// The build system's name in configuration files.
    pub fn as_str_name(&self) -> (r: &'static str)
        ensures
            r@ == build_system_name(*self),
    {
        match self {
            BuildSystem::AutodetectBuild => "AutodetectBuild",
            BuildSystem::SkipBuild => "SkipBuild",
            BuildSystem::PythonCheckers => "PythonCheckers",
            BuildSystem::ClangToolchain => "ClangToolchain",
            BuildSystem::MakefileProject => "MakefileProject",
            BuildSystem::CMakeProject => "CMakeProject",
            BuildSystem::GoLangProject => "GoLangProject",
            BuildSystem::JavaPlainProject => "JavaPlainProject",
            BuildSystem::MavenProject => "MavenProject",
        }
    }
}

/// What kind of executable a build produces.
#[derive(Clone, Copy, Debug, PartialEq, Eq, Structural)]
pub enum ExecutableTarget {
    AutodetectExecutable,
    ShellScript,
    PythonScript,
    Native,
    NativeWithSanitizers,
    NativeWithValgrind,
    NativeWithSanitizersAndValgrind,
    JavaClass,
    JavaJar,
    QemuSystemImage,
}

/// The target's wire code.
pub open spec fn executable_target_code(t: ExecutableTarget) -> i32 {
    match t {
        ExecutableTarget::AutodetectExecutable => 0,
        ExecutableTarget::ShellScript => 1,
        ExecutableTarget::PythonScript => 2,
        ExecutableTarget::Native => 10,
        ExecutableTarget::NativeWithSanitizers => 11,
        ExecutableTarget::NativeWithValgrind => 12,
        ExecutableTarget::NativeWithSanitizersAndValgrind => 13,
        ExecutableTarget::JavaClass => 21,
        ExecutableTarget::JavaJar => 22,
        ExecutableTarget::QemuSystemImage => 31,
    }
}

/// The target with a wire code; autodetection for an unknown code.
pub open spec fn target_of_code(code: i32) -> ExecutableTarget {
    if code == 1 {
        ExecutableTarget::ShellScript
    } else if code == 2 {
        ExecutableTarget::PythonScript
    } else if code == 10 {
        ExecutableTarget::Native
    } else if code == 11 {
        ExecutableTarget::NativeWithSanitizers
    } else if code == 12 {
        ExecutableTarget::NativeWithValgrind
    } else if code == 13 {
        ExecutableTarget::NativeWithSanitizersAndValgrind
    } else if code == 21 {
        ExecutableTarget::JavaClass
    } else if code == 22 {
        ExecutableTarget::JavaJar
    } else if code == 31 {
        ExecutableTarget::QemuSystemImage
    } else {
        ExecutableTarget::AutodetectExecutable
    }
}

impl ExecutableTarget {
    /// The target's wire code.
    pub fn code(&self) -> (r: i32)
        ensures
            r == executable_target_code(*self),
    {
        match self {
            ExecutableTarget::AutodetectExecutable => 0,
            ExecutableTarget::ShellScript => 1,
            ExecutableTarget::PythonScript => 2,
            ExecutableTarget::Native => 10,
            ExecutableTarget::NativeWithSanitizers => 11,
            ExecutableTarget::NativeWithValgrind => 12,
            ExecutableTarget::NativeWithSanitizersAndValgrind => 13,
            ExecutableTarget::JavaClass => 21,
            ExecutableTarget::JavaJar => 22,
            ExecutableTarget::QemuSystemImage => 31,
        }
    }

    /// The target with a wire code; an unknown code reads as the default,
    /// autodetection.
    pub fn from_code(code: i32) -> (r: ExecutableTarget)
        ensures
            r == target_of_code(code),
    {
        match code {
            1 => ExecutableTarget::ShellScript,
            2 => ExecutableTarget::PythonScript,
            10 => ExecutableTarget::Native,
            11 => ExecutableTarget::NativeWithSanitizers,
            12 => ExecutableTarget::NativeWithValgrind,
            13 => ExecutableTarget::NativeWithSanitizersAndValgrind,
            21 => ExecutableTarget::JavaClass,
            22 => ExecutableTarget::JavaJar,
            31 => ExecutableTarget::QemuSystemImage,
            _ => ExecutableTarget::AutodetectExecutable,
        }
    }
}

/// A student's attempt at a problem.
#[derive(Clone, Debug)]
pub struct Submission {
    pub id: i64,
    pub course_data_id: String,
    pub problem_id: String,
    pub solution_files: FileSet,
    pub status: SolutionStatus,
    pub style_error_log: String,
    pub build_error_log: String,
}

/// One test: its streams and command-line arguments.
#[derive(Clone, Debug)]
pub struct TestCase {
    pub command_line_arguments: String,
    pub stdin_data: Option<File>,
    pub stdout_reference: Option<File>,
    pub stderr_reference: Option<File>,
}

/// A style rule: sources with this suffix are checked against this file.
#[derive(Clone, Debug)]
pub struct CodeStyle {
    pub source_file_suffix: String,
    pub style_file: Option<File>,
}

/// How a problem's submissions are built and graded.
#[derive(Clone, Debug)]
pub struct GradingOptions {
    pub limits: Option<GradingLimits>,
    pub test_cases: Vec<TestCase>,
    pub code_styles: Vec<CodeStyle>,
    pub executable_target: i32,
    pub build_system: i32,
    pub build_properties: LanguageBuildProperties,
}

impl GradingOptions {
    /// The executable target; an unknown code reads as autodetection.
    pub fn executable_target(&self) -> (r: ExecutableTarget)
        ensures
            r == target_of_code(self.executable_target),
    {
        ExecutableTarget::from_code(self.executable_target)
    }

    /// These options with their limits overridden by those that `other`
    /// sets; everything else is kept.
    pub fn updated_with(&self, other: &GradingOptions) -> (r: GradingOptions)
        ensures
            r.limits == match (self.limits, other.limits) {
                (Some(a), Some(b)) => Some(crate::limits::limits_merged(a, b)),
                (None, b) => b,
                (a, None) => a,
            },
            r.executable_target == self.executable_target,
            r.build_system == self.build_system,
    {
        let limits = match (&self.limits, &other.limits) {
            (Some(a), Some(b)) => Some(a.updated_with(b)),
            (None, b) => *b,
            (a, None) => *a,
        };
        GradingOptions {
            limits,
            test_cases: self.test_cases.clone(),
            code_styles: self.code_styles.clone(),
            executable_target: self.executable_target,
            build_system: self.build_system,
            build_properties: self.build_properties.clone(),
        }
    }
}

} // verus!
