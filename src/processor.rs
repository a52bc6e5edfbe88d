//! The per-submission pipeline's decisions: which builder applies, and how
//! style-check and build results become the submission's status and logs.

use vstd::prelude::*;
use vstd::string::*;

use crate::builder::{can_build, language_of, BuildArtifact, BuilderError, SourceProcessError};
use crate::model::{build_system_code, build_system_name, BuildSystem, FileSet, SolutionStatus, Submission};
use crate::text::{decimal_i64, decimal_int, trim, trimmed};

verus! {

/// The toolchain that builds a submission.
#[derive(Clone, Copy, Debug, PartialEq, Eq, Structural)]
pub enum BuilderKind {
    /// Style-checks and builds C, C++ and assembler sources.
    Clang,
    /// Checks and builds nothing.
    Void,
}

/// The toolchain for a build-system code: autodetection picks Clang where
/// it can build the files and the void toolchain otherwise; an unknown
/// code and a build system without a toolchain are errors.
pub fn create_builder(build_system: i32, files: &FileSet) -> (r: Result<BuilderKind, String>)
    ensures
        (forall|b: BuildSystem| build_system_code(b) != build_system) ==> (r matches Err(m) && m@
            == "Wrong build system enum value "@ + decimal_int(build_system as int)),
        build_system_code(BuildSystem::AutodetectBuild) == build_system ==> r == Ok::<
            BuilderKind,
            String,
        >(if language_of(files.files@) is Some { BuilderKind::Clang } else { BuilderKind::Void }),
        build_system_code(BuildSystem::ClangToolchain) == build_system ==> r == Ok::<
            BuilderKind,
            String,
        >(BuilderKind::Clang),
        build_system_code(BuildSystem::SkipBuild) == build_system ==> r == Ok::<BuilderKind, String>(
            BuilderKind::Void,
        ),
        forall|b: BuildSystem|
            build_system_code(b) == build_system && b != BuildSystem::AutodetectBuild && b
                != BuildSystem::ClangToolchain && b != BuildSystem::SkipBuild ==> (r matches Err(m)
                && m@ == "Build system "@ + build_system_name(b) + " not implemented yet"@),
{
    match BuildSystem::from_code(build_system) {
        None => {
            let mut m = String::from_str("Wrong build system enum value ");
            let d = decimal_i64(build_system as i64);
            m.append(d.as_str());
            Err(m)
        },
        Some(BuildSystem::AutodetectBuild) => {
            if can_build(files) {
                Ok(BuilderKind::Clang)
            } else {
                Ok(BuilderKind::Void)
            }
        },
        Some(BuildSystem::ClangToolchain) => Ok(BuilderKind::Clang),
        Some(BuildSystem::SkipBuild) => Ok(BuilderKind::Void),
        Some(other) => {
            let mut m = String::from_str("Build system ");
            m.append(other.as_str_name());
            m.append(" not implemented yet");
            Err(m)
        },
    }
}

/// The errors of a step, each as its file's name and message, every one
/// after a blank line.
pub open spec fn report_text(errors: Seq<SourceProcessError>) -> Seq<char>
    decreases errors.len(),
{
    if errors.len() == 0 {
        seq![]
    } else {
        report_text(errors.drop_last()) + "\n\n"@ + errors.last().file_name@ + "\n"@
            + errors.last().message@
    }
}

/// The collated report of a step's user errors.
pub fn error_report(errors: &Vec<SourceProcessError>) -> (r: String)
    ensures
        r@ == report_text(errors@),
{
    let mut r = String::new();
    let mut i: usize = 0;
    while i < errors.len()
        invariant
            i <= errors@.len(),
            r@ == report_text(errors@.take(i as int)),
        decreases errors@.len() - i,
    {
        proof {
            assert(errors@.take(i + 1).drop_last() =~= errors@.take(i as int));
        }
        r.append("\n\n");
        let entry = errors[i].to_string();
        r.append(entry.as_str());
        i = i + 1;
        proof {
            assert(r@ =~= report_text(errors@.take(i as int)));
        }
    }
    proof {
        assert(errors@.take(errors@.len() as int) =~= errors@);
    }
    r
}

/// Where the pipeline goes after a step.
#[derive(Debug, PartialEq, Eq)]
pub enum Verdict {
    /// On to the next step.
    Proceed,
    /// The submission's status is final.
    Finished,
    /// A system error ends processing; the text says what it was.
    Failed(String),
}

/// The outcome of a step: where to go, and the text for the step's log
/// file, if one is written.
pub struct StepOutcome {
    pub verdict: Verdict,
    pub log_text: Option<String>,
}

/// Applies a step's result to the submission. A system error fails the
/// submission (its message goes to the log); user errors set `status`,
/// record the trimmed report in the chosen log field and write the report
/// to the log; success proceeds.
fn apply_step(
    submission: &mut Submission,
    result: Result<(), BuilderError>,
    status: SolutionStatus,
    style: bool,
) -> (r: StepOutcome)
    ensures
        result matches Err(BuilderError::SystemError(m)) ==> r.verdict == Verdict::Failed(m)
            && r.log_text == Some(m) && *final(submission) == *old(submission),
        result matches Err(BuilderError::UserError(v)) ==> r.verdict == Verdict::Finished && (
        r.log_text matches Some(t) && t@ == report_text(v@)) && final(submission).status == status
            && final(submission).id == old(submission).id && (style ==> final(submission).style_error_log@ == trim(report_text(v@)) && final(submission).build_error_log == old(submission).build_error_log) && (!style ==> final(submission).build_error_log@ == trim(
            report_text(v@),
        ) && final(submission).style_error_log == old(submission).style_error_log),
        result is Ok ==> r.verdict == Verdict::Proceed && r.log_text is None && *final(submission)
            == *old(submission),
{
    match result {
        Ok(()) => StepOutcome { verdict: Verdict::Proceed, log_text: None },
        Err(BuilderError::SystemError(m)) => {
            let text = m.clone();
            StepOutcome { verdict: Verdict::Failed(m), log_text: Some(text) }
        },
        Err(BuilderError::UserError(v)) => {
            let report = error_report(&v);
            let log = String::from_str(trimmed(report.as_str()));
            submission.status = status;
            if style {
                submission.style_error_log = log;
            } else {
                submission.build_error_log = log;
            }
            StepOutcome { verdict: Verdict::Finished, log_text: Some(report) }
        },
    }
}

/// Applies a style-check result: user errors make the status
/// `STYLE_CHECK_ERROR` with the report in `style_error_log`.
pub fn after_style_check(submission: &mut Submission, result: Result<(), BuilderError>) -> (r:
    StepOutcome)
    ensures
        result matches Err(BuilderError::SystemError(m)) ==> r.verdict == Verdict::Failed(m)
            && r.log_text == Some(m) && *final(submission) == *old(submission),
        result matches Err(BuilderError::UserError(v)) ==> r.verdict == Verdict::Finished && (
        r.log_text matches Some(t) && t@ == report_text(v@)) && final(submission).status
            == SolutionStatus::StyleCheckError && final(submission).id == old(submission).id
            && final(submission).style_error_log@ == trim(report_text(v@)) && final(submission).build_error_log == old(submission).build_error_log,
        result is Ok ==> r.verdict == Verdict::Proceed && r.log_text is None && *final(submission)
            == *old(submission),
{
    apply_step(submission, result, SolutionStatus::StyleCheckError, true)
}

/// Applies a build result: user errors make the status
/// `COMPILATION_ERROR` with the report in `build_error_log`.
pub fn after_build(submission: &mut Submission, result: Result<Vec<BuildArtifact>, BuilderError>) -> (r:
    StepOutcome)
    ensures
        result matches Err(BuilderError::SystemError(m)) ==> r.verdict == Verdict::Failed(m)
            && r.log_text == Some(m) && *final(submission) == *old(submission),
        result matches Err(BuilderError::UserError(v)) ==> r.verdict == Verdict::Finished && (
        r.log_text matches Some(t) && t@ == report_text(v@)) && final(submission).status
            == SolutionStatus::CompilationError && final(submission).id == old(submission).id
            && final(submission).build_error_log@ == trim(report_text(v@)) && final(submission).style_error_log == old(submission).style_error_log,
        result is Ok ==> r.verdict == Verdict::Proceed && r.log_text is None && *final(submission)
            == *old(submission),
{
    let unit = match result {
        Ok(_) => Ok(()),
        Err(e) => Err(e),
    };
    apply_step(submission, unit, SolutionStatus::CompilationError, false)
}

/// Marks a submission whose processing failed: `CHECK_FAILED`, with the
/// error in `build_error_log`.
pub fn fail_submission(submission: &mut Submission, message: String)
    ensures
        final(submission).status == SolutionStatus::CheckFailed,
        final(submission).build_error_log == message,
        final(submission).id == old(submission).id,
        final(submission).style_error_log == old(submission).style_error_log,
{
    submission.status = SolutionStatus::CheckFailed;
    submission.build_error_log = message;
}

/// Where a submission is in its processing.
#[derive(Clone, Copy, Debug, PartialEq, Eq, Structural)]
pub enum Stage {
    Queued,
    Stored,
    StyleChecked,
    Built,
    Done,
}

/// The per-submission state machine: store, style check, build. A system
/// error at any step ends it with `CHECK_FAILED`; user errors end it with
/// the step's status; the stage's log text is handed back for writing.
pub struct SubmissionPipeline {
    pub stage: Stage,
    pub submission: Submission,
}

impl SubmissionPipeline {
    /// A pipeline for a submission that was just received.
    pub fn new(submission: Submission) -> (r: SubmissionPipeline)
        ensures
            r.stage == Stage::Queued,
            r.submission == submission,
    {
        SubmissionPipeline { stage: Stage::Queued, submission }
    }

    /// The submission was stored and read back (or storing failed).
    pub fn on_stored(&mut self, stored: Result<Submission, String>)
        requires
            old(self).stage == Stage::Queued,
        ensures
            stored matches Ok(s) ==> final(self).stage == Stage::Stored && final(self).submission == s,
            stored matches Err(m) ==> final(self).stage == Stage::Done && final(self).submission.status
                == SolutionStatus::CheckFailed && final(self).submission.build_error_log == m
                && final(self).submission.id == old(self).submission.id,
    {
        match stored {
            Ok(s) => {
                self.submission = s;
                self.stage = Stage::Stored;
            },
            Err(m) => {
                fail_submission(&mut self.submission, m);
                self.stage = Stage::Done;
            },
        }
    }

    /// Takes in the style check's result; gives the text for the style
    /// check's log, if one is written.
    pub fn on_style_checked(&mut self, result: Result<(), BuilderError>) -> (log: Option<String>)
        requires
            old(self).stage == Stage::Stored,
        ensures
            result is Ok ==> final(self).stage == Stage::StyleChecked && final(self).submission
                == old(self).submission && log is None,
            result matches Err(BuilderError::UserError(v)) ==> final(self).stage == Stage::Done
                && final(self).submission.status == SolutionStatus::StyleCheckError && final(self).submission.style_error_log@ == trim(report_text(v@)) && (log matches Some(t) && t@
                == report_text(v@)),
            result matches Err(BuilderError::UserError(v)) ==> final(self).submission.build_error_log
                == old(self).submission.build_error_log && final(self).submission.id == old(self).submission.id,
            result matches Err(BuilderError::SystemError(m)) ==> final(self).stage == Stage::Done
                && final(self).submission.status == SolutionStatus::CheckFailed && final(self).submission.build_error_log == m && log == Some(m),
    {
        let outcome = after_style_check(&mut self.submission, result);
        self.settle(outcome, Stage::StyleChecked)
    }

    /// Takes in the build's result; gives the text for the build log, if
    /// one is written.
    pub fn on_built(&mut self, result: Result<Vec<BuildArtifact>, BuilderError>) -> (log: Option<String>)
        requires
            old(self).stage == Stage::StyleChecked,
        ensures
            result is Ok ==> final(self).stage == Stage::Built && final(self).submission == old(self).submission && log is None,
            result matches Err(BuilderError::UserError(v)) ==> final(self).stage == Stage::Done
                && final(self).submission.status == SolutionStatus::CompilationError && final(self).submission.build_error_log@ == trim(report_text(v@)) && (log matches Some(t) && t@
                == report_text(v@)),
            result matches Err(BuilderError::UserError(v)) ==> final(self).submission.style_error_log
                == old(self).submission.style_error_log && final(self).submission.id == old(self).submission.id,
            result matches Err(BuilderError::SystemError(m)) ==> final(self).stage == Stage::Done
                && final(self).submission.status == SolutionStatus::CheckFailed && final(self).submission.build_error_log == m && log == Some(m),
    {
        let outcome = after_build(&mut self.submission, result);
        self.settle(outcome, Stage::Built)
    }

    fn settle(&mut self, outcome: StepOutcome, next: Stage) -> (log: Option<String>)
        ensures
            outcome.verdict == Verdict::Proceed ==> final(self).stage == next && final(self).submission
                == old(self).submission,
            outcome.verdict == Verdict::Finished ==> final(self).stage == Stage::Done && final(self).submission == old(self).submission,
            outcome.verdict matches Verdict::Failed(m) ==> final(self).stage == Stage::Done && final(self).submission.status == SolutionStatus::CheckFailed && final(self).submission.build_error_log
                == m,
            log == outcome.log_text,
    {
        match outcome.verdict {
            Verdict::Proceed => {
                self.stage = next;
            },
            Verdict::Finished => {
                self.stage = Stage::Done;
            },
            Verdict::Failed(m) => {
                fail_submission(&mut self.submission, m);
                self.stage = Stage::Done;
            },
        }
        outcome.log_text
    }

    /// Testing is not part of the pipeline yet: a built submission is done,
    /// with no test results.
    pub fn on_tested(&mut self)
        requires
            old(self).stage == Stage::Built,
        ensures
            final(self).stage == Stage::Done,
            final(self).submission == old(self).submission,
    {
        self.stage = Stage::Done;
    }
}

} // verus!
