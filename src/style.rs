//! The style check: every source whose extension has a style rule is
//! formatted with `clang-format`, and `diff` compares it with the result.

use vstd::prelude::*;
use vstd::string::*;
use vstd::utf8::{decode_utf8, valid_utf8};

use crate::builder::{BuilderError, SourceProcessError};
use crate::model::{CodeStyle, File, FileSet};
use crate::runner::{exit_text, utf8_text, CommandOutput, ExitResult, LaunchCmd};
use crate::storage::{join_path, path_join};
use crate::text::{eq_ignore_ascii_case, eq_ignoring_ascii_case, extension, extension_of, view_strings};

verus! {

/// Whether some style rule's suffix names this extension, ignoring ASCII
/// case.
pub open spec fn styled(ext: Seq<char>, styles: Seq<CodeStyle>) -> bool {
    exists|i: int| 0 <= i < styles.len() && eq_ignoring_ascii_case(#[trigger] styles[i].source_file_suffix@, ext)
}

/// The names of the sources that the style check covers, in order.
pub open spec fn styled_sources(files: Seq<File>, styles: Seq<CodeStyle>) -> Seq<Seq<char>>
    decreases files.len(),
{
    if files.len() == 0 {
        seq![]
    } else {
        let r = styled_sources(files.drop_last(), styles);
        if styled(extension_of(files.last().name@), styles) {
            r.push(files.last().name@)
        } else {
            r
        }
    }
}

/// Where `clang-format` output for a source is kept.
pub open spec fn formatted_name(name: Seq<char>) -> Seq<char> {
    name + ".formatted"@
}

/// What a failed `diff` reports: its standard output and standard error,
/// each as text where it is UTF-8, on two lines.
pub open spec fn diff_report(stdout: Seq<u8>, stderr: Seq<u8>) -> Seq<char> {
    (if valid_utf8(stdout) {
        decode_utf8(stdout)
    } else {
        "Can't convert utf-8 output from diff stdout"@
    }) + "\n"@ + (if valid_utf8(stderr) {
        decode_utf8(stderr)
    } else {
        "Can't convert utf-8 output from diff stderr"@
    })
}

/// The step of one source's check that comes next.
#[derive(Clone, Copy, Debug, PartialEq, Eq, Structural)]
pub enum StylePhase {
    Format,
    Store,
    Compare,
}

/// What the style check asks of its caller.
pub enum StyleAction {
    /// Run this command in the sandbox's build directory.
    Run(LaunchCmd),
    /// Write these bytes to this path.
    Store(String, Vec<u8>),
    /// The check is over: take its result with `finish`.
    Done,
}

/// The progress of a style check over a submission's sources.
pub struct StyleCheck {
    pub sources: Vec<String>,
    pub build_dir: String,
    pub next: usize,
    pub phase: StylePhase,
    pub formatted: Vec<u8>,
    pub errors: Vec<SourceProcessError>,
    pub failure: Option<String>,
}

fn is_styled(name: &String, styles: &Vec<CodeStyle>) -> (r: bool)
    ensures
        r == styled(extension_of(name@), styles@),
{
    let ext = extension(name.as_str());
    let mut i: usize = 0;
    while i < styles.len()
        invariant
            i <= styles@.len(),
            ext@ == extension_of(name@),
            forall|k: int| 0 <= k < i ==> !eq_ignoring_ascii_case(#[trigger] styles@[k].source_file_suffix@, ext@),
        decreases styles@.len() - i,
    {
        if eq_ignore_ascii_case(styles[i].source_file_suffix.as_str(), ext) {
            proof {
                assert(eq_ignoring_ascii_case(styles@[i as int].source_file_suffix@, ext@));
            }
            return true;
        }
        i = i + 1;
    }
    false
}

/// Text of command output, or a note where it is not UTF-8.
fn text_or(bytes: Vec<u8>, note: &str) -> (r: String)
    ensures
        r@ == if valid_utf8(bytes@) { decode_utf8(bytes@) } else { note@ },
{
    match utf8_text(bytes) {
        Some(s) => s,
        None => String::from_str(note),
    }
}

impl StyleCheck {
    /// The current source is within the sources.
    pub open spec fn wf(&self) -> bool {
        self.next <= self.sources@.len()
    }

    /// Whether the check still has work: no system error and sources left.
    pub open spec fn running(&self) -> bool {
        self.failure is None && self.next < self.sources@.len()
    }

    /// A check of the files whose extension has a style rule; formatted
    /// copies go to the submission's build directory.
    pub fn new(files: &FileSet, styles: &Vec<CodeStyle>, submission_root: &str) -> (r: StyleCheck)
        ensures
            r.wf(),
            view_strings(r.sources@) == styled_sources(files.files@, styles@),
            r.build_dir@ == join_path(join_path(submission_root@, "upperdir"@), "build"@),
            r.next == 0,
            r.phase == StylePhase::Format,
            r.errors@.len() == 0,
            r.failure is None,
    {
        let mut sources: Vec<String> = Vec::new();
        let mut j: usize = 0;
        while j < files.files.len()
            invariant
                j <= files.files@.len(),
                view_strings(sources@) == styled_sources(files.files@.take(j as int), styles@),
            decreases files.files@.len() - j,
        {
            proof {
                assert(files.files@.take(j + 1).drop_last() =~= files.files@.take(j as int));
            }
            if is_styled(&files.files[j].name, styles) {
                let ghost before = sources@;
                sources.push(files.files[j].name.clone());
                proof {
                    assert(view_strings(sources@) =~= view_strings(before).push(
                        files.files@[j as int].name@,
                    ));
                }
            }
            j = j + 1;
        }
        proof {
            assert(files.files@.take(files.files@.len() as int) =~= files.files@);
        }
        let upper = path_join(submission_root, "upperdir");
        let build_dir = path_join(upper.as_str(), "build");
        StyleCheck {
            sources,
            build_dir,
            next: 0,
            phase: StylePhase::Format,
            formatted: Vec::new(),
            errors: Vec::new(),
            failure: None,
        }
    }

    /// The next step: format the current source, store the formatted copy,
    /// compare the two; `Done` once a system error occurred or every source
    /// is checked.
    pub fn next_action(&mut self) -> (r: StyleAction)
        requires
            old(self).wf(),
        ensures
            final(self).wf(),
            final(self).sources == old(self).sources,
            final(self).next == old(self).next,
            final(self).phase == old(self).phase,
            final(self).errors == old(self).errors,
            final(self).failure == old(self).failure,
            !old(self).running() ==> r is Done,
            old(self).running() && old(self).phase == StylePhase::Format ==> (r matches StyleAction::Run(
                c,
            ) && c.program@ == "clang-format"@ && view_strings(c.arguments@) == seq![
                "-style=file"@,
                old(self).sources@[old(self).next as int]@,
            ]),
            old(self).running() && old(self).phase == StylePhase::Store ==> (r matches StyleAction::Store(
                p,
                d,
            ) && p@ == join_path(
                old(self).build_dir@,
                formatted_name(old(self).sources@[old(self).next as int]@),
            ) && d@ == old(self).formatted@),
            old(self).running() && old(self).phase == StylePhase::Compare ==> (r matches StyleAction::Run(
                c,
            ) && c.program@ == "diff"@ && view_strings(c.arguments@) == seq![
                old(self).sources@[old(self).next as int]@,
                formatted_name(old(self).sources@[old(self).next as int]@),
            ]),
    {
        if self.failure.is_some() || self.next >= self.sources.len() {
            return StyleAction::Done;
        }
        let name = self.sources[self.next].clone();
        let mut formatted_file = name.clone();
        formatted_file.append(".formatted");
        match self.phase {
            StylePhase::Format => {
                let mut args: Vec<String> = Vec::new();
                args.push(String::from_str("-style=file"));
                args.push(name);
                proof {
                    assert(view_strings(args@) =~= seq!["-style=file"@, old(self).sources@[old(self).next as int]@]);
                }
                StyleAction::Run(LaunchCmd { program: String::from_str("clang-format"), arguments: args })
            },
            StylePhase::Store => {
                let path = path_join(self.build_dir.as_str(), formatted_file.as_str());
                let mut data: Vec<u8> = Vec::new();
                std::mem::swap(&mut data, &mut self.formatted);
                StyleAction::Store(path, data)
            },
            StylePhase::Compare => {
                let mut args: Vec<String> = Vec::new();
                args.push(name);
                args.push(formatted_file);
                proof {
                    assert(view_strings(args@) =~= seq![
                        old(self).sources@[old(self).next as int]@,
                        formatted_name(old(self).sources@[old(self).next as int]@),
                    ]);
                }
                StyleAction::Run(LaunchCmd { program: String::from_str("diff"), arguments: args })
            },
        }
    }

    /// Takes in the outcome of the command that `next_action` gave. A
    /// launch failure, or `clang-format` not succeeding, is a system error;
    /// `diff` not succeeding records the source's style error.
    pub fn on_command(&mut self, outcome: Result<CommandOutput, String>)
        requires
            old(self).wf(),
            old(self).running(),
            old(self).phase != StylePhase::Store,
        ensures
            final(self).wf(),
            final(self).sources == old(self).sources,
            final(self).build_dir == old(self).build_dir,
            outcome matches Err(e) ==> final(self).failure == Some(e),
            outcome matches Ok(o) ==> (old(self).phase == StylePhase::Format && o.exit_status
                != ExitResult::Finished(0) ==> (final(self).failure matches Some(m) && m@
                == "clang-format failed: "@ + exit_text(o.exit_status))),
            outcome matches Ok(o) ==> (old(self).phase == StylePhase::Format && o.exit_status
                == ExitResult::Finished(0) ==> final(self).failure is None && final(self).phase
                == StylePhase::Store && final(self).formatted == o.stdout && final(self).next == old(
                self,
            ).next && final(self).errors == old(self).errors),
            outcome matches Ok(o) ==> (old(self).phase == StylePhase::Compare ==> final(self).failure
                is None && final(self).phase == StylePhase::Format && final(self).next == old(
                self,
            ).next + 1),
            outcome matches Ok(o) ==> (old(self).phase == StylePhase::Compare && o.exit_status
                == ExitResult::Finished(0) ==> final(self).errors == old(self).errors),
            outcome matches Ok(o) ==> (old(self).phase == StylePhase::Compare && o.exit_status
                != ExitResult::Finished(0) ==> final(self).errors@.len() == old(self).errors@.len() + 1
                && final(self).errors@.take(old(self).errors@.len() as int) == old(self).errors@
                && final(self).errors@.last().file_name@ == old(self).sources@[old(self).next as int]@
                && final(self).errors@.last().message@ == diff_report(o.stdout@, o.stderr@)),
    {
        match outcome {
            Err(e) => {
                self.failure = Some(e);
            },
            Ok(o) => {
                if self.phase == StylePhase::Format {
                    if o.is_success() {
                        self.formatted = o.stdout;
                        self.phase = StylePhase::Store;
                    } else {
                        let mut m = String::from_str("clang-format failed: ");
                        let d = o.exit_status.to_string();
                        m.append(d.as_str());
                        self.failure = Some(m);
                    }
                } else {
                    if !o.is_success() {
                        let mut message = text_or(o.stdout, "Can't convert utf-8 output from diff stdout");
                        message.append("\n");
                        let err = text_or(o.stderr, "Can't convert utf-8 output from diff stderr");
                        message.append(err.as_str());
                        let ghost before = self.errors@;
                        self.errors.push(
                            SourceProcessError { file_name: self.sources[self.next].clone(), message },
                        );
                        proof {
                            assert(self.errors@.take(before.len() as int) =~= before);
                        }
                    }
                    self.phase = StylePhase::Format;
                    if self.next < self.sources.len() {
                        self.next = self.next + 1;
                    }
                }
            },
        }
    }

    /// Takes in whether the formatted copy was stored; a failure to store
    /// is a system error.
    pub fn on_stored(&mut self, stored: Result<(), String>)
        requires
            old(self).wf(),
            old(self).running(),
            old(self).phase == StylePhase::Store,
        ensures
            final(self).wf(),
            final(self).sources == old(self).sources,
            final(self).build_dir == old(self).build_dir,
            final(self).next == old(self).next,
            final(self).errors == old(self).errors,
            stored matches Err(e) ==> final(self).failure == Some(e),
            stored is Ok ==> final(self).failure is None && final(self).phase == StylePhase::Compare,
    {
        match stored {
            Err(e) => {
                self.failure = Some(e);
            },
            Ok(()) => {
                self.phase = StylePhase::Compare;
            },
        }
    }

    /// The check's result: the system error, else every style error
    /// together, else success.
    pub fn finish(self) -> (r: Result<(), BuilderError>)
        ensures
            self.failure matches Some(m) ==> r == Err::<(), BuilderError>(BuilderError::SystemError(m)),
            self.failure is None && self.errors@.len() > 0 ==> r == Err::<(), BuilderError>(
                BuilderError::UserError(self.errors),
            ),
            self.failure is None && self.errors@.len() == 0 ==> r is Ok,
    {
        match self.failure {
            Some(m) => Err(BuilderError::SystemError(m)),
            None => {
                if self.errors.len() == 0 {
                    Ok(())
                } else {
                    Err(BuilderError::UserError(self.errors))
                }
            },
        }
    }
}

} // verus!
