//! The Clang toolchain's decisions: which submissions it builds, which
//! targets, with which commands, and how each outcome is classified.

use vstd::prelude::*;
use vstd::string::*;
use vstd::utf8::{decode_utf8, valid_utf8};

use crate::build_props::{
    dedup, lookup, merged_value, token_set, string_to_set, BuildProperties,
    LanguageBuildProperties,
};
use crate::model::{ExecutableTarget, FileSet, File};
use crate::runner::{utf8_text, CommandOutput, ExitResult, LaunchCmd};
use crate::text::{ends_with, text_ends_with, view_strings, extension, extension_of};

verus! {

/// A problem with one source file or build artifact, and the tool's words
/// about it.
#[derive(Clone, Debug)]
pub struct SourceProcessError {
    pub file_name: String,
    pub message: String,
}

impl SourceProcessError {
    /// The file's name, a line break, then the message.
    pub fn to_string(&self) -> (r: String)
        ensures
            r@ == self.file_name@ + "\n"@ + self.message@,
    {
        let mut r = self.file_name.clone();
        r.append("\n");
        r.append(self.message.as_str());
        r
    }
}

/// Why a build step did not succeed: the worker's own fault, or the
/// student's (one entry per file).
#[derive(Debug)]
pub enum BuilderError {
    SystemError(String),
    UserError(Vec<SourceProcessError>),
}

/// Whether some file's name ends with `pattern`.
pub open spec fn has_suffix(files: Seq<File>, pattern: Seq<char>) -> bool {
    exists|i: int| 0 <= i < files.len() && ends_with(#[trigger] files[i].name@, pattern)
}

/// Whether any file's name ends with `pattern`.
pub fn has_file_by_pattern(file_set: &FileSet, pattern: &str) -> (r: bool)
    ensures
        r == has_suffix(file_set.files@, pattern@),
{
    let files = &file_set.files;
    let mut i: usize = 0;
    while i < files.len()
        invariant
            i <= files@.len(),
            files@ == file_set.files@,
            forall|k: int| 0 <= k < i ==> !ends_with(#[trigger] files@[k].name@, pattern@),
        decreases files@.len() - i,
    {
        if text_ends_with(files[i].name.as_str(), pattern) {
            proof {
                let ghost k = i as int;
                assert(0 <= k < file_set.files@.len() && ends_with(file_set.files@[k].name@, pattern@));
                assert(has_suffix(file_set.files@, pattern@));
            }
            return true;
        }
        i = i + 1;
    }
    false
}

/// Whether a C source is among the files.
pub open spec fn has_c(files: Seq<File>) -> bool {
    has_suffix(files, ".c"@)
}

/// Whether a C++ source is among the files.
pub open spec fn has_cxx(files: Seq<File>) -> bool {
    has_suffix(files, ".cpp"@) || has_suffix(files, ".cxx"@) || has_suffix(files, ".cc"@)
}

/// Whether an assembler source is among the files.
pub open spec fn has_gnu_asm(files: Seq<File>) -> bool {
    has_suffix(files, ".S"@) || has_suffix(files, ".s"@)
}

/// The language bucket whose properties a build uses.
#[derive(Clone, Copy, Debug, PartialEq, Eq, Structural)]
pub enum Language {
    C,
    Cxx,
    GnuAsm,
}

/// C++ if any C++ source is there, else assembler, else C.
pub open spec fn language_of(files: Seq<File>) -> Option<Language> {
    if has_cxx(files) {
        Some(Language::Cxx)
    } else if has_gnu_asm(files) {
        Some(Language::GnuAsm)
    } else if has_c(files) {
        Some(Language::C)
    } else {
        None
    }
}

/// Whether the Clang toolchain can build these files.
pub fn can_build(files: &FileSet) -> (r: bool)
    ensures
        r == language_of(files.files@) is Some,
{
    detect_language(files).is_some()
}

/// The language bucket of a submission's files, if the Clang toolchain
/// builds them.
pub fn detect_language(files: &FileSet) -> (r: Option<Language>)
    ensures
        r == language_of(files.files@),
{
    if has_file_by_pattern(files, ".cpp") || has_file_by_pattern(files, ".cxx")
        || has_file_by_pattern(files, ".cc") {
        Some(Language::Cxx)
    } else if has_file_by_pattern(files, ".S") || has_file_by_pattern(files, ".s") {
        Some(Language::GnuAsm)
    } else if has_file_by_pattern(files, ".c") {
        Some(Language::C)
    } else {
        None
    }
}

/// The default properties of a language bucket.
pub open spec fn bucket_of(props: BuildProperties, language: Language) -> LanguageBuildProperties {
    match language {
        Language::C => props.c,
        Language::Cxx => props.cxx,
        Language::GnuAsm => props.s,
    }
}

/// The default properties of a language bucket.
pub fn bucket(props: &BuildProperties, language: Language) -> (r: &LanguageBuildProperties)
    ensures
        language == Language::C ==> r == &props.c,
        language == Language::Cxx ==> r == &props.cxx,
        language == Language::GnuAsm ==> r == &props.s,
{
    match language {
        Language::C => &props.c,
        Language::Cxx => &props.cxx,
        Language::GnuAsm => &props.s,
    }
}

/// Whether a source file is compiled: by its extension.
pub open spec fn compilable(name: Seq<char>) -> bool {
    let e = extension_of(name);
    e == "c"@ || e == "s"@ || e == "S"@ || e == "cxx"@ || e == "cpp"@ || e == "cc"@
}

/// Whether a source file is compiled: C, C++ or assembler by its extension.
pub fn is_compilable(file_name: &String) -> (r: bool)
    ensures
        r == compilable(file_name@),
{
    let e = extension(file_name.as_str());
    let es = String::from_str(e);
    es == String::from_str("c") || es == String::from_str("s") || es == String::from_str("S")
        || es == String::from_str("cxx") || es == String::from_str("cpp") || es
        == String::from_str("cc")
}

/// Targets that ask for a sanitized variant.
pub open spec fn sanitizing_target(t: ExecutableTarget) -> bool {
    t == ExecutableTarget::NativeWithSanitizers || t == ExecutableTarget::NativeWithSanitizersAndValgrind
}

/// Targets that need the plain native executable.
pub open spec fn native_target(t: ExecutableTarget) -> bool {
    t == ExecutableTarget::Native || t == ExecutableTarget::NativeWithValgrind || t
        == ExecutableTarget::NativeWithSanitizersAndValgrind
}

/// The compiler flag that enables one sanitizer.
pub open spec fn sanitizer_flag(t: Seq<char>) -> Seq<char> {
    "-fsanitize="@ + t
}

/// The compiler flags that enable the configured sanitizers, for targets
/// that ask for sanitizers and properties that name some.
pub open spec fn sanitizer_flags(props: Seq<(String, String)>, target: ExecutableTarget) -> Seq<
    Seq<char>,
> {
    if !sanitizing_target(target) {
        seq![]
    } else {
        match lookup(props, "sanitizers"@) {
            None => seq![],
            Some(v) => token_set(v).map_values(|t: Seq<char>| sanitizer_flag(t)).push(
                "-fno-sanitize-recover=all"@,
            ),
        }
    }
}

/// The sanitizer flags that a target's build adds to the compile options.
pub fn get_sanitizer_options(props: &LanguageBuildProperties, target: ExecutableTarget) -> (r: Vec<
    String,
>)
    ensures
        view_strings(r@) == sanitizer_flags(props.entries@, target),
{
    let allow = target == ExecutableTarget::NativeWithSanitizers || target
        == ExecutableTarget::NativeWithSanitizersAndValgrind;
    if !allow {
        return Vec::new();
    }
    match props.get("sanitizers") {
        None => Vec::new(),
        Some(v) => {
            let names = string_to_set(v);
            let mut r: Vec<String> = Vec::new();
            let mut i: usize = 0;
            while i < names.len()
                invariant
                    i <= names@.len(),
                    view_strings(r@) == view_strings(names@.take(i as int)).map_values(
                        |t: Seq<char>| sanitizer_flag(t),
                    ),
                decreases names@.len() - i,
            {
                let mut flag = String::from_str("-fsanitize=");
                flag.append(names[i].as_str());
                let ghost before = r@;
                let ghost fv = flag@;
                r.push(flag);
                i = i + 1;
                proof {
                    assert(fv == sanitizer_flag(names@[i - 1]@));
                    assert(view_strings(names@.take(i as int)) =~= view_strings(names@.take(i - 1)).push(
                        names@[i - 1]@,
                    ));
                    assert(view_strings(r@) =~= view_strings(before).push(fv));
                    assert(view_strings(r@) =~= view_strings(names@.take(i as int)).map_values(
                        |t: Seq<char>| sanitizer_flag(t),
                    ));
                }
            }
            proof {
                assert(names@.take(names@.len() as int) =~= names@);
            }
            let ghost before = r@;
            r.push(String::from_str("-fno-sanitize-recover=all"));
            proof {
                assert(view_strings(r@) =~= view_strings(before).push("-fno-sanitize-recover=all"@));
            }
            r
        },
    }
}

/// The tokens of the link options.
pub open spec fn link_tokens(props: Seq<(String, String)>) -> Seq<Seq<char>> {
    match lookup(props, "link_options"@) {
        Some(v) => token_set(v),
        None => seq![],
    }
}

/// A sanitized variant is built where sanitizers apply and the program is
/// not linked without the standard library.
pub open spec fn sanitized_enabled(props: Seq<(String, String)>, target: ExecutableTarget) -> bool {
    sanitizer_flags(props, target).len() > 0 && !link_tokens(props).contains("-nostdlib"@)
}

/// The plain variant is built for native targets, and wherever no
/// sanitized variant is.
pub open spec fn plain_enabled(props: Seq<(String, String)>, target: ExecutableTarget) -> bool {
    native_target(target) || !sanitized_enabled(props, target)
}

/// One executable to build.
#[derive(Debug)]
pub struct TargetPlan {
    pub target: ExecutableTarget,
    pub sanitizer_options: Vec<String>,
    pub artifact: String,
}

/// The executables to build from the effective properties: the plain
/// `solution` and the sanitized `solution-san`, as far as enabled, in
/// that order.
pub fn plan_targets(props: &LanguageBuildProperties, target: ExecutableTarget) -> (r: Vec<TargetPlan>)
    ensures
        r@.len() == (if plain_enabled(props.entries@, target) { 1int } else { 0 }) + (if sanitized_enabled(
            props.entries@,
            target,
        ) { 1int } else { 0 }),
        plain_enabled(props.entries@, target) ==> r@[0].target == ExecutableTarget::Native
            && r@[0].sanitizer_options@.len() == 0 && r@[0].artifact@ == "solution"@,
        sanitized_enabled(props.entries@, target) ==> ({
            let k = if plain_enabled(props.entries@, target) { 1int } else { 0 };
            &&& r@[k].target == ExecutableTarget::NativeWithSanitizers
            &&& view_strings(r@[k].sanitizer_options@) == sanitizer_flags(props.entries@, target)
            &&& r@[k].artifact@ == "solution-san"@
        }),
{
    let link = match props.get("link_options") {
        Some(v) => string_to_set(v),
        None => Vec::new(),
    };
    let no_std_lib = contains_token(&link, "-nostdlib");
    let sanitizers = get_sanitizer_options(props, target);
    let enable_sanitized = sanitizers.len() > 0 && !no_std_lib;
    let native = target == ExecutableTarget::Native || target == ExecutableTarget::NativeWithValgrind
        || target == ExecutableTarget::NativeWithSanitizersAndValgrind;
    let enable_plain = native || !enable_sanitized;
    let mut r: Vec<TargetPlan> = Vec::new();
    if enable_plain {
        r.push(
            TargetPlan {
                target: ExecutableTarget::Native,
                sanitizer_options: Vec::new(),
                artifact: String::from_str("solution"),
            },
        );
    }
    if enable_sanitized {
        r.push(
            TargetPlan {
                target: ExecutableTarget::NativeWithSanitizers,
                sanitizer_options: sanitizers,
                artifact: String::from_str("solution-san"),
            },
        );
    }
    r
}

fn contains_token(v: &Vec<String>, t: &str) -> (r: bool)
    ensures
        r == view_strings(v@).contains(t@),
{
    let mut i: usize = 0;
    while i < v.len()
        invariant
            i <= v@.len(),
            forall|k: int| 0 <= k < i ==> v@[k]@ != t@,
        decreases v@.len() - i,
    {
        if v[i].as_str().unicode_len() == t.unicode_len() && crate::build_props::equal_text(v[i].as_str(), t) {
            proof {
                assert(view_strings(v@)[i as int] == t@);
            }
            return true;
        }
        i = i + 1;
    }
    proof {
        if view_strings(v@).contains(t@) {
            let k = choose|k: int| 0 <= k < view_strings(v@).len() && view_strings(v@)[k] == t@;
            assert(v@[k]@ == t@);
        }
    }
    false
}

/// The object file that a source compiles to for a target.
pub open spec fn object_name(source: Seq<char>, target: ExecutableTarget) -> Seq<char> {
    source + if target == ExecutableTarget::NativeWithSanitizers {
        ".san.o"@
    } else {
        ".o"@
    }
}

/// The arguments that compile `source` into `object`.
pub open spec fn compile_args(options: Seq<Seq<char>>, source: Seq<char>, object: Seq<char>) -> Seq<
    Seq<char>,
> {
    options + seq!["-c"@, "-o"@, object, source]
}

/// The arguments that link `objects` into `artifact`.
pub open spec fn link_args(options: Seq<Seq<char>>, objects: Seq<Seq<char>>, artifact: Seq<char>) -> Seq<
    Seq<char>,
> {
    options + seq!["-o"@, artifact] + objects
}

/// What a failed tool printed: its standard error as text, or a note that
/// the text was not UTF-8.
pub open spec fn tool_message(tool: Seq<char>, stderr: Seq<u8>) -> Seq<char> {
    if valid_utf8(stderr) {
        decode_utf8(stderr)
    } else {
        tool + " returned non-UTF-8 error output"@
    }
}

fn failure_message(tool: &String, stderr: Vec<u8>) -> (r: String)
    ensures
        r@ == tool_message(tool@, stderr@),
{
    match utf8_text(stderr) {
        Some(s) => s,
        None => {
            let mut m = tool.clone();
            m.append(" returned non-UTF-8 error output");
            m
        },
    }
}

/// A built executable.
#[derive(Debug)]
pub struct BuildArtifact {
    pub executable_target: ExecutableTarget,
    pub file_names: Vec<String>,
}

/// The build of one target: each compilable source compiled in turn, then
/// the objects linked.
pub struct TargetBuild {
    pub target: ExecutableTarget,
    pub compiler: Option<String>,
    pub compile_options: Vec<String>,
    pub link_options: Vec<String>,
    pub sources: Vec<String>,
    pub artifact: String,
    pub next_source: usize,
    pub objects: Vec<String>,
    pub errors: Vec<SourceProcessError>,
    pub failure: Option<String>,
    pub link_error: Option<SourceProcessError>,
    pub linked: bool,
}

/// The names of the files that are compiled, in order.
pub open spec fn compilable_sources(files: Seq<File>) -> Seq<Seq<char>>
    decreases files.len(),
{
    if files.len() == 0 {
        seq![]
    } else {
        let r = compilable_sources(files.drop_last());
        if compilable(files.last().name@) {
            r.push(files.last().name@)
        } else {
            r
        }
    }
}

/// The token set of an optional value; none when it is absent.
pub open spec fn opt_tokens(v: Option<Seq<char>>) -> Seq<Seq<char>> {
    match v {
        Some(x) => token_set(x),
        None => seq![],
    }
}

impl TargetBuild {
    /// `c` is the command that comes next: the compile of the next source,
    /// else the link of the objects.
    pub open spec fn command_of(&self, c: LaunchCmd) -> bool {
        &&& c.program@ == self.compiler->0@
        &&& self.compiling() ==> view_strings(c.arguments@) == compile_args(
            view_strings(self.compile_options@),
            self.sources@[self.next_source as int]@,
            object_name(self.sources@[self.next_source as int]@, self.target),
        )
        &&& !self.compiling() ==> view_strings(c.arguments@) == link_args(
            view_strings(self.link_options@),
            view_strings(self.objects@),
            self.artifact@,
        )
    }

    /// `after` is this build once it took in `outcome` of its next
    /// command: a launch failure is recorded as the system error; a
    /// compile's outcome adds the object or the source's error and moves to
    /// the next source; a link's outcome marks the build linked or records
    /// the link error.
    pub open spec fn recorded(&self, outcome: Result<CommandOutput, String>, after: TargetBuild) -> bool {
        &&& after.compiler == self.compiler
        &&& after.sources == self.sources
        &&& after.target == self.target
        &&& after.artifact == self.artifact
        &&& after.compile_options == self.compile_options
        &&& after.link_options == self.link_options
        &&& outcome matches Err(e) ==> after == (TargetBuild { failure: Some(e), ..*self })
        &&& outcome matches Ok(o) ==> {
            &&& after.failure is None
            &&& self.compiling() ==> {
                &&& after.next_source == self.next_source + 1
                &&& after.link_error == self.link_error
                &&& after.linked == self.linked
                &&& o.exit_status == ExitResult::Finished(0) ==> view_strings(after.objects@)
                    == view_strings(self.objects@).push(
                    object_name(self.sources@[self.next_source as int]@, self.target),
                ) && after.errors == self.errors
                &&& o.exit_status != ExitResult::Finished(0) ==> after.objects == self.objects
                    && after.errors@.len() == self.errors@.len() + 1 && after.errors@.take(
                    self.errors@.len() as int,
                ) == self.errors@ && after.errors@.last().file_name@
                    == self.sources@[self.next_source as int]@ && after.errors@.last().message@
                    == tool_message(self.compiler->0@, o.stderr@)
            }
            &&& !self.compiling() ==> {
                &&& after.next_source == self.next_source
                &&& after.objects == self.objects
                &&& after.errors == self.errors
                &&& o.exit_status == ExitResult::Finished(0) ==> after.linked && after.link_error
                    is None
                &&& o.exit_status != ExitResult::Finished(0) ==> (after.link_error matches Some(e)
                    && e.file_name@ == self.artifact@ && e.message@ == tool_message(
                    self.compiler->0@,
                    o.stderr@,
                ))
            }
        }
    }

    /// The build ended without any error.
    pub open spec fn succeeds(&self) -> bool {
        self.compiler is Some && self.failure is None && self.errors@.len() == 0
            && self.link_error is None
    }

    /// The error that an unsuccessful build ends with: a missing compiler,
    /// a failed launch, every compile error together, or the link error.
    pub open spec fn fails_with(&self, e: BuilderError) -> bool {
        match self.compiler {
            None => e matches BuilderError::SystemError(m) && m@ == "Compiler not set in configuration"@,
            Some(_) => match self.failure {
                Some(m) => e == BuilderError::SystemError(m),
                None => if self.errors@.len() > 0 {
                    e == BuilderError::UserError(self.errors)
                } else {
                    match self.link_error {
                        Some(x) => e matches BuilderError::UserError(v) && v@ == seq![x],
                        None => false,
                    }
                },
            },
        }
    }

    /// Whether a command is still to run: no system error, sources left or
    /// a link pending.
    pub open spec fn running(&self) -> bool {
        &&& self.compiler is Some
        &&& self.failure is None
        &&& (self.next_source < self.sources@.len() || (self.errors@.len() == 0
            && self.link_error is None && !self.linked))
    }

    /// Sources remain to be compiled.
    pub open spec fn compiling(&self) -> bool {
        self.next_source < self.sources@.len()
    }

    /// The next source is within the sources.
    pub open spec fn wf(&self) -> bool {
        self.next_source <= self.sources@.len()
    }

    /// Prepares the build of `plan` from the effective properties and the
    /// submission's files.
    pub fn new(props: &LanguageBuildProperties, plan: &TargetPlan, files: &FileSet) -> (r: TargetBuild)
        ensures
            r.wf(),
            r.target == plan.target,
            r.compiler matches Some(c) ==> lookup(props.entries@, "compiler"@) == Some(c@),
            r.compiler is None ==> lookup(props.entries@, "compiler"@) is None,
            view_strings(r.compile_options@) == dedup(
                opt_tokens(lookup(props.entries@, "compile_options"@)) + view_strings(
                    plan.sanitizer_options@,
                ),
            ),
            view_strings(r.link_options@) == opt_tokens(lookup(props.entries@, "link_options"@)),
            view_strings(r.sources@) == compilable_sources(files.files@),
            r.artifact@ == plan.artifact@,
            r.next_source == 0,
            r.objects@.len() == 0,
            r.errors@.len() == 0,
            r.failure is None,
            r.link_error is None,
            !r.linked,
    {
        let compiler = match props.get("compiler") {
            Some(c) => Some(c.clone()),
            None => None,
        };
        let mut options = match props.get("compile_options") {
            Some(v) => string_to_set(v),
            None => Vec::new(),
        };
        let mut i: usize = 0;
        let ghost base = view_strings(options@);
        while i < plan.sanitizer_options.len()
            invariant
                i <= plan.sanitizer_options@.len(),
                view_strings(options@) == base + view_strings(plan.sanitizer_options@.take(i as int)),
            decreases plan.sanitizer_options@.len() - i,
        {
            let ghost before = options@;
            options.push(plan.sanitizer_options[i].clone());
            i = i + 1;
            proof {
                assert(view_strings(options@) =~= view_strings(before).push(
                    plan.sanitizer_options@[i - 1]@,
                ));
                assert(view_strings(plan.sanitizer_options@.take(i as int)) =~= view_strings(
                    plan.sanitizer_options@.take(i - 1),
                ).push(plan.sanitizer_options@[i - 1]@));
            }
        }
        proof {
            assert(plan.sanitizer_options@.take(plan.sanitizer_options@.len() as int)
                =~= plan.sanitizer_options@);
        }
        let compile_options = crate::build_props::dedup_strings(options);
        let link_options = match props.get("link_options") {
            Some(v) => string_to_set(v),
            None => Vec::new(),
        };
        let mut sources: Vec<String> = Vec::new();
        let mut j: usize = 0;
        while j < files.files.len()
            invariant
                j <= files.files@.len(),
                view_strings(sources@) == compilable_sources(files.files@.take(j as int)),
            decreases files.files@.len() - j,
        {
            proof {
                assert(files.files@.take(j + 1).drop_last() =~= files.files@.take(j as int));
            }
            if is_compilable(&files.files[j].name) {
                let ghost before = sources@;
                sources.push(files.files[j].name.clone());
                proof {
                    assert(view_strings(sources@) =~= view_strings(before).push(
                        files.files@[j as int].name@,
                    ));
                }
            }
            j = j + 1;
        }
        proof {
            assert(files.files@.take(files.files@.len() as int) =~= files.files@);
        }
        TargetBuild {
            target: plan.target,
            compiler,
            compile_options,
            link_options,
            sources,
            artifact: plan.artifact.clone(),
            next_source: 0,
            objects: Vec::new(),
            errors: Vec::new(),
            failure: None,
            link_error: None,
            linked: false,
        }
    }

    /// Whether a command is still to run.
    pub fn is_running(&self) -> (r: bool)
        ensures
            r == self.running(),
    {
        self.compiler.is_some() && self.failure.is_none() && (self.next_source < self.sources.len() || (
        self.errors.len() == 0 && self.link_error.is_none() && !self.linked))
    }

    fn object_of(&self, source: &String) -> (r: String)
        ensures
            r@ == object_name(source@, self.target),
    {
        let mut r = source.clone();
        if self.target == ExecutableTarget::NativeWithSanitizers {
            r.append(".san.o");
        } else {
            r.append(".o");
        }
        r
    }

    /// The next command to run, while the build is running: the next
    /// compile, else the link.
    pub fn next_command(&self) -> (r: LaunchCmd)
        requires
            self.wf(),
            self.running(),
        ensures
            self.command_of(r),
    {
        let compiler = match &self.compiler {
            Some(c) => c.clone(),
            None => String::new(),
        };
        let mut args: Vec<String> = Vec::new();
        copy_strings(&mut args, &self.compile_options_or_link());
        if self.next_source < self.sources.len() {
            let source = &self.sources[self.next_source];
            let object = self.object_of(source);
            let ghost before = args@;
            args.push(String::from_str("-c"));
            args.push(String::from_str("-o"));
            args.push(object);
            args.push(source.clone());
            proof {
                assert(view_strings(args@) =~= view_strings(before) + seq![
                    "-c"@,
                    "-o"@,
                    object_name(source@, self.target),
                    source@,
                ]);
            }
        } else {
            let ghost before = args@;
            args.push(String::from_str("-o"));
            args.push(self.artifact.clone());
            proof {
                assert(view_strings(args@) =~= view_strings(before) + seq!["-o"@, self.artifact@]);
            }
            copy_strings(&mut args, &self.objects);
        }
        LaunchCmd { program: compiler, arguments: args }
    }

    fn compile_options_or_link(&self) -> (r: Vec<String>)
        ensures
            self.compiling() ==> view_strings(r@) == view_strings(self.compile_options@),
            !self.compiling() ==> view_strings(r@) == view_strings(self.link_options@),
    {
        let mut r: Vec<String> = Vec::new();
        if self.next_source < self.sources.len() {
            copy_strings(&mut r, &self.compile_options);
        } else {
            copy_strings(&mut r, &self.link_options);
        }
        proof {
            assert(view_strings(r@) =~= if self.compiling() {
                view_strings(self.compile_options@)
            } else {
                view_strings(self.link_options@)
            });
        }
        r
    }

    /// Takes in the outcome of the command that `next_command` gave: a
    /// launch failure is a system error; a failed compile is recorded
    /// against its source and the remaining sources are still compiled; a
    /// failed link is recorded against the artifact.
    pub fn record(&mut self, outcome: Result<CommandOutput, String>)
        requires
            old(self).wf(),
            old(self).running(),
        ensures
            final(self).wf(),
            old(self).recorded(outcome, *final(self)),
    {
        let compiler = match &self.compiler {
            Some(c) => c.clone(),
            None => String::new(),
        };
        match outcome {
            Err(e) => {
                self.failure = Some(e);
            },
            Ok(o) => {
                if self.next_source < self.sources.len() {
                    let source = self.sources[self.next_source].clone();
                    if o.is_success() {
                        let object = self.object_of(&source);
                        let ghost before = self.objects@;
                        self.objects.push(object);
                        proof {
                            assert(view_strings(self.objects@) =~= view_strings(before).push(
                                object_name(source@, self.target),
                            ));
                        }
                    } else {
                        let message = failure_message(&compiler, o.stderr);
                        let ghost before = self.errors@;
                        self.errors.push(SourceProcessError { file_name: source, message });
                        proof {
                            assert(self.errors@.take(before.len() as int) =~= before);
                        }
                    }
                    self.next_source = self.next_source + 1;
                } else {
                    if o.is_success() {
                        self.linked = true;
                    } else {
                        let message = failure_message(&compiler, o.stderr);
                        self.link_error = Some(
                            SourceProcessError { file_name: self.artifact.clone(), message },
                        );
                    }
                }
            },
        }
    }

    /// The result, once the build no longer runs: a system error (a missing
    /// compiler, a failed launch), every compile error together, the link
    /// error, or the artifact.
    pub fn finish(self) -> (r: Result<BuildArtifact, BuilderError>)
        requires
            self.wf(),
            !self.running(),
        ensures
            !self.succeeds() ==> (r matches Err(e) && self.fails_with(e)),
            self.succeeds() ==> (r matches Ok(a) && a.executable_target == self.target && view_strings(
                a.file_names@,
            ) == seq![self.artifact@]),
    {
        if self.compiler.is_none() {
            return Err(BuilderError::SystemError(String::from_str("Compiler not set in configuration")));
        }
        match self.failure {
            Some(m) => Err(BuilderError::SystemError(m)),
            None => {
                if self.errors.len() > 0 {
                    Err(BuilderError::UserError(self.errors))
                } else {
                    match self.link_error {
                        Some(e) => {
                            let mut v: Vec<SourceProcessError> = Vec::new();
                            v.push(e);
                            Err(BuilderError::UserError(v))
                        },
                        None => {
                            let mut names: Vec<String> = Vec::new();
                            names.push(self.artifact);
                            proof {
                                assert(view_strings(names@) =~= seq![self.artifact@]);
                            }
                            Ok(BuildArtifact { executable_target: self.target, file_names: names })
                        },
                    }
                }
            },
        }
    }
}

fn copy_strings(dst: &mut Vec<String>, src: &Vec<String>)
    ensures
        view_strings(final(dst)@) == view_strings(old(dst)@) + view_strings(src@),
{
    let mut i: usize = 0;
    let ghost start = view_strings(dst@);
    while i < src.len()
        invariant
            i <= src@.len(),
            view_strings(dst@) == start + view_strings(src@.take(i as int)),
        decreases src@.len() - i,
    {
        let ghost before = dst@;
        dst.push(src[i].clone());
        i = i + 1;
        proof {
            assert(view_strings(dst@) =~= view_strings(before).push(src@[i - 1]@));
            assert(view_strings(src@.take(i as int)) =~= view_strings(src@.take(i - 1)).push(
                src@[i - 1]@,
            ));
        }
    }
    proof {
        assert(src@.take(src@.len() as int) =~= src@);
    }
}

/// The properties that a build uses: the defaults of the files' language
/// bucket merged with the problem's own; `None` where the Clang toolchain
/// does not build the files.
pub fn effective_properties(
    defaults: &BuildProperties,
    files: &FileSet,
    extra: &LanguageBuildProperties,
) -> (r: Option<LanguageBuildProperties>)
    requires
        defaults.wf(),
    ensures
        language_of(files.files@) is None <==> r is None,
        r matches Some(p) ==> ({
            let b = bucket_of(*defaults, language_of(files.files@)->0);
            &&& p.wf()
            &&& p.entries@.len() == b.entries@.len()
            &&& forall|i: int|
                0 <= i < p.entries@.len() ==> (#[trigger] p.entries@[i]).0@ == b.entries@[i].0@
                    && p.entries@[i].1@ == merged_value(
                    b.entries@[i].0@,
                    b.entries@[i].1@,
                    extra.entries@,
                )
        }),
{
    match detect_language(files) {
        None => None,
        Some(language) => Some(bucket(defaults, language).updated_with(extra)),
    }
}

/// The build of every planned target in turn; the first failure ends it.
pub struct BuildRun {
    pub props: LanguageBuildProperties,
    pub plans: Vec<TargetPlan>,
    pub files: FileSet,
    pub next_plan: usize,
    pub current: Option<TargetBuild>,
    pub artifacts: Vec<BuildArtifact>,
    pub error: Option<BuilderError>,
}

/// The artifact that a planned target yields.
pub open spec fn artifact_of(a: BuildArtifact, plan: TargetPlan) -> bool {
    a.executable_target == plan.target && view_strings(a.file_names@) == seq![plan.artifact@]
}

impl BuildRun {
    /// The current target is the last one started; the finished targets'
    /// artifacts are recorded in plan order.
    pub open spec fn wf(&self) -> bool {
        &&& self.next_plan <= self.plans@.len()
        &&& self.current matches Some(t) ==> t.wf() && self.next_plan > 0 && t.target
            == self.plans@[self.next_plan - 1].target && t.artifact@ == self.plans@[self.next_plan
            - 1].artifact@
        &&& self.error is None ==> self.artifacts@.len() + (if self.current is Some {
            1int
        } else {
            0
        }) == self.next_plan
        &&& self.artifacts@.len() <= self.next_plan
        &&& forall|i: int|
            0 <= i < self.artifacts@.len() ==> artifact_of(#[trigger] self.artifacts@[i], self.plans@[i])
    }

    /// A run of the planned targets, none started yet.
    pub fn new(props: LanguageBuildProperties, plans: Vec<TargetPlan>, files: FileSet) -> (r: BuildRun)
        ensures
            r.wf(),
            r.next_plan == 0,
            r.current is None,
            r.artifacts@.len() == 0,
            r.error is None,
            r.plans == plans,
    {
        BuildRun { props, plans, files, next_plan: 0, current: None, artifacts: Vec::new(), error: None }
    }

    /// The next command of the target being built; moves on to the next
    /// target when one is done. `None` once every target is built or one
    /// failed; a failed target's error becomes the run's error.
    pub fn next_command(&mut self) -> (r: Option<LaunchCmd>)
        requires
            old(self).wf(),
        ensures
            final(self).wf(),
            final(self).plans == old(self).plans,
            final(self).props == old(self).props,
            final(self).files == old(self).files,
            r matches Some(c) ==> (final(self).current matches Some(t) && t.running() && t.command_of(
                c,
            )),
            r is None ==> final(self).error is Some || (final(self).current is None
                && final(self).next_plan == final(self).plans@.len()),
            old(self).error is Some ==> r is None && *final(self) == *old(self),
            old(self).error is None ==> (old(self).current matches Some(t) ==> (t.running() ==> (
            r matches Some(c) && t.command_of(c)) && *final(self) == *old(self))),
            old(self).error is None ==> (old(self).current matches Some(t) ==> (!t.running()
                && !t.succeeds() ==> r is None && (final(self).error matches Some(e) && t.fails_with(
                e,
            )))),
    {
        let ghost mut first = true;
        loop
            invariant
                self.wf(),
                self.plans == old(self).plans,
                self.props == old(self).props,
                self.files == old(self).files,
                old(self).error is Some ==> self.error is Some,
                first ==> *self == *old(self),
                !first ==> old(self).error is None && (old(self).current matches Some(t) ==> (
                !t.running() && t.succeeds())),
            decreases (self.plans@.len() - self.next_plan) * 2 + if self.current is Some {
                1int
            } else {
                0
            },
        {
            if self.error.is_some() {
                return None;
            }
            match self.current.take() {
                Some(t) => {
                    if t.is_running() {
                        let c = t.next_command();
                        self.current = Some(t);
                        return Some(c);
                    }
                    let ghost plan = self.plans@[self.next_plan - 1];
                    let ghost tt = t;
                    match t.finish() {
                        Ok(a) => {
                            let ghost before = self.artifacts@;
                            self.artifacts.push(a);
                            proof {
                                assert(tt.succeeds());
                                assert(artifact_of(self.artifacts@[before.len() as int], plan));
                                assert forall|i: int| 0 <= i < self.artifacts@.len() implies artifact_of(
                                    #[trigger] self.artifacts@[i],
                                    self.plans@[i],
                                ) by {
                                    if i < before.len() {
                                        assert(self.artifacts@[i] == before[i]);
                                    }
                                }
                            }
                        },
                        Err(e) => {
                            self.error = Some(e);
                            return None;
                        },
                    }
                },
                None => {
                    if self.next_plan >= self.plans.len() {
                        return None;
                    }
                    let t = TargetBuild::new(&self.props, &self.plans[self.next_plan], &self.files);
                    self.current = Some(t);
                    self.next_plan = self.next_plan + 1;
                },
            }
            proof {
                first = false;
            }
        }
    }

    /// Takes in the outcome of the command that `next_command` gave: the
    /// current target records it; nothing else changes.
    pub fn record(&mut self, outcome: Result<CommandOutput, String>)
        requires
            old(self).wf(),
            old(self).current matches Some(t) && t.running(),
        ensures
            final(self).wf(),
            final(self).current matches Some(t) && old(self).current->0.recorded(outcome, t),
            final(self).plans == old(self).plans,
            final(self).props == old(self).props,
            final(self).files == old(self).files,
            final(self).artifacts == old(self).artifacts,
            final(self).next_plan == old(self).next_plan,
            final(self).error == old(self).error,
    {
        match self.current.take() {
            Some(mut t) => {
                t.record(outcome);
                self.current = Some(t);
            },
            None => {},
        }
    }

    /// The first failure, or, once every planned target is built, their
    /// artifacts in plan order.
    pub fn finish(self) -> (r: Result<Vec<BuildArtifact>, BuilderError>)
        requires
            self.wf(),
        ensures
            self.error matches Some(e) ==> r == Err::<Vec<BuildArtifact>, BuilderError>(e),
            self.error is None && self.current is None && self.next_plan == self.plans@.len() ==> (
            r matches Ok(v) && v@.len() == self.plans@.len() && forall|i: int|
                0 <= i < v@.len() ==> artifact_of(#[trigger] v@[i], self.plans@[i])),
    {
        match self.error {
            Some(e) => Err(e),
            None => Ok(self.artifacts),
        }
    }
}

} // verus!
