//! The on-disk layout of the problem cache and of submission work areas.

use std::io::Read;

use vstd::prelude::*;
use vstd::string::*;
use vstd::utf8::encode_utf8;

use crate::model::{build_system_code, BuildSystem, CodeStyle, File, Submission, TestCase};
use crate::rpc::ProblemContentResponse;
use crate::yaml::{
    args_file, args_file_name, options_to_yaml, options_yaml, submission_to_yaml, submission_yaml, YamlValue,
};
use crate::text::{
    decimal_int, decimal_i64, lemma_parse_decimal, parse_i64, parse_int, push_char, trim, trimmed,
    zero_padded_i64, zero_padded_int,
};

verus! {

/// `part` appended to `base` as `Path::join` does: an absolute `part`
/// replaces `base`; otherwise one separator stands between the two.
pub open spec fn join_path(base: Seq<char>, part: Seq<char>) -> Seq<char> {
    if part.len() > 0 && part[0] == '/' {
        part
    } else if base.len() == 0 {
        part
    } else if base.last() == '/' {
        base + part
    } else {
        base + seq!['/'] + part
    }
}

} // verus!
verus! {

/// `part` appended to `base` as `Path::join` does.
pub fn path_join(base: &str, part: &str) -> (r: String)
    ensures
        r@ == join_path(base@, part@),
{
    let pn = part.unicode_len();
    if pn > 0 && part.get_char(0) == '/' {
        return String::from_str(part);
    }
    let bn = base.unicode_len();
    if bn == 0 {
        return String::from_str(part);
    }
    let mut r = String::from_str(base);
    if base.get_char(bn - 1) != '/' {
        r.append("/");
        proof {
            reveal_strlit("/");
        }
    }
    r.append(part);
    proof {
        reveal_strlit("/");
        assert(r@ =~= join_path(base@, part@));
    }
    r
}

/// `s` with every `:` turned into `/`.
pub open spec fn colons_to_slashes(s: Seq<char>) -> Seq<char> {
    s.map_values(|c: char| if c == ':' { '/' } else { c })
}

/// `s` with every `:` turned into `/`.
pub fn replace_colons(s: &str) -> (r: String)
    ensures
        r@ == colons_to_slashes(s@),
{
    let n = s.unicode_len();
    let mut r = String::new();
    let mut i: usize = 0;
    while i < n
        invariant
            n == s@.len(),
            i <= n,
            r@ == colons_to_slashes(s@.take(i as int)),
        decreases n - i,
    {
        let c = s.get_char(i);
        if c == ':' {
            push_char(&mut r, '/');
        } else {
            push_char(&mut r, c);
        }
        i = i + 1;
        proof {
            assert(r@ =~= colons_to_slashes(s@.take(i as int)));
        }
    }
    proof {
        assert(s@.take(n as int) =~= s@);
    }
    r
}

/// The directories the worker keeps its data in.
#[derive(Clone, Debug)]
pub struct LocationsConfig {
    pub working_directory: String,
    pub cache_directory: String,
    pub system_root: String,
}

/// The canonical layout of the problem cache and the submission work areas.
#[derive(Clone, Debug)]
pub struct StorageManager {
    pub config: LocationsConfig,
}

/// `<cache>/<course>/<problem>`, with every `:` of the problem id as `/`.
pub open spec fn problem_root_of(cache: Seq<char>, course: Seq<char>, problem: Seq<char>) -> Seq<char> {
    join_path(join_path(cache, course), colons_to_slashes(problem))
}

/// `<work>/<id>`, the id zero-padded to six characters.
pub open spec fn submission_root_of(work: Seq<char>, id: int) -> Seq<char> {
    join_path(work, zero_padded_int(id, 6))
}

/// The text of `timestamp.txt`: the decimal stamp and a line break.
pub open spec fn timestamp_text_of(t: int) -> Seq<char> {
    decimal_int(t) + "\n"@
}

/// The stamp that `timestamp.txt` holds: its trimmed text as a decimal;
/// zero (a cache miss) where the file is missing or unreadable.
pub open spec fn timestamp_of(content: Option<Seq<char>>) -> int {
    match content {
        Some(c) => match parse_int(trim(c)) {
            Some(v) => v,
            None => 0,
        },
        None => 0,
    }
}

impl StorageManager {
    /// A storage layout under the configured directories.
    pub fn new(config: LocationsConfig) -> (r: StorageManager)
        ensures
            r.config.working_directory@ == config.working_directory@,
            r.config.cache_directory@ == config.cache_directory@,
            r.config.system_root@ == config.system_root@,
    {
        StorageManager { config }
    }

    /// Where a problem's cached content lives.
    pub fn get_problem_root(&self, course_id: &String, problem_id: &String) -> (r: String)
        ensures
            r@ == problem_root_of(self.config.cache_directory@, course_id@, problem_id@),
    {
        let course = path_join(self.config.cache_directory.as_str(), course_id.as_str());
        let problem = replace_colons(problem_id.as_str());
        path_join(course.as_str(), problem.as_str())
    }

    /// Where a submission's work area lives.
    pub fn get_submission_root(&self, submission_id: i64) -> (r: String)
        ensures
            r@ == submission_root_of(self.config.working_directory@, submission_id as int),
    {
        let dir = zero_padded_i64(submission_id, 6);
        path_join(self.config.working_directory.as_str(), dir.as_str())
    }

    /// The system layer of every sandbox.
    pub fn get_system_root(&self) -> (r: String)
        ensures
            r@ == self.config.system_root@,
    {
        self.config.system_root.clone()
    }
}

/// The text stored in `timestamp.txt`.
pub fn timestamp_text(t: i64) -> (r: String)
    ensures
        r@ == timestamp_text_of(t as int),
{
    let mut r = decimal_i64(t);
    r.append("\n");
    r
}

/// The stamp that the text of `timestamp.txt` gives; `None` stands for a
/// missing or unreadable file.
pub fn parse_timestamp(content: Option<&str>) -> (r: i64)
    ensures
        r as int == timestamp_of(
            match content {
                Some(c) => Some(c@),
                None => None,
            },
        ),
{
    match content {
        Some(c) => match parse_i64(trimmed(c)) {
            Some(v) => v,
            None => 0,
        },
        None => 0,
    }
}

/// Reading back the stamp that was stored gives the stamp.
pub proof fn lemma_timestamp_round_trip(t: i64)
    ensures
        timestamp_of(Some(timestamp_text_of(t as int))) == t as int,
{
    let s = timestamp_text_of(t as int);
    let d = decimal_int(t as int);
    lemma_parse_decimal(t as int);
    crate::text::lemma_decimal_int_shape(t as int);
    lemma_trim_decimal_line(d);
    assert(trim(s) == d);
}

proof fn lemma_trim_decimal_line(d: Seq<char>)
    requires
        d.len() > 0,
        crate::text::is_digit(d[0]) || d[0] == '-',
        crate::text::is_digit(d.last()),
    ensures
        trim(d + "\n"@) == d,
{
    reveal_strlit("\n");
    let s = d + "\n"@;
    assert(s[0] == d[0]);
    assert(crate::text::trim_start(s) == s);
    assert(s.last() == '\n');
    assert(s.drop_last() =~= d);
    assert(crate::text::trim_end(d) == d);
}

/// What `gzip` decoding makes of some bytes: the decoded bytes, or `None`
/// where they are no valid gzip stream.
pub uninterp spec fn gunzip_of(data: Seq<u8>) -> Option<Seq<u8>>;

/// Relies on `libflate::gzip::Decoder`: it decodes a gzip stream, and
/// fails on bytes that are none; the outcome depends on the bytes alone.
#[verifier::external_body]
fn gunzip(data: &[u8]) -> (r: Result<Vec<u8>, String>)
    ensures
        r matches Ok(v) ==> gunzip_of(data@) == Some(v@),
        r is Err ==> gunzip_of(data@) is None,
{
    let mut decoder = match libflate::gzip::Decoder::new(data) {
        Ok(d) => d,
        Err(e) => return Err(e.to_string()),
    };
    let mut out = Vec::new();
    match decoder.read_to_end(&mut out) {
        Ok(_) => Ok(out),
        Err(e) => Err(e.to_string()),
    }
}

/// The bytes to write for stored data: decoded where they are gzipped.
pub fn prepare_binary(data: &Vec<u8>, gzipped: bool) -> (r: Result<Vec<u8>, String>)
    ensures
        !gzipped ==> (r matches Ok(v) && v@ == data@),
        gzipped ==> (r matches Ok(v) ==> gunzip_of(data@) == Some(v@)),
        gzipped ==> (r is Err <==> gunzip_of(data@) is None),
{
    if gzipped {
        gunzip(data.as_slice())
    } else {
        Ok(data.clone())
    }
}

/// One file to write: its path, its bytes, and whether the bytes are
/// gzipped (and are decoded before writing).
#[derive(Debug)]
pub struct FileWrite {
    pub path: String,
    pub data: Vec<u8>,
    pub gzipped: bool,
}

/// Everything that storing a problem's content does, in order: wipe the
/// problem's directory, create the build and tests directories, write the
/// files, then the options, then the timestamp.
pub struct ProblemStore {
    pub root: String,
    pub build_dir: String,
    pub tests_dir: String,
    pub writes: Vec<FileWrite>,
    pub options_path: String,
    pub options_yaml: YamlValue,
    pub timestamp_path: String,
    pub timestamp: String,
}

/// What storing a submission writes: its solution files into the build
/// directory of its upper layer, then its metadata.
pub struct SubmissionStore {
    pub build_dir: String,
    pub writes: Vec<FileWrite>,
    pub metadata_path: String,
    pub metadata: YamlValue,
}

fn file_write(dir: &str, file: &File, gzipped: bool) -> (r: FileWrite)
    ensures
        r.path@ == join_path(dir@, file.name@),
        r.data@ == file.data@,
        r.gzipped == gzipped,
{
    FileWrite { path: path_join(dir, file.name.as_str()), data: file.data.clone(), gzipped }
}

/// Where each write goes, its bytes, and whether they are gzipped.
pub open spec fn write_targets(w: Seq<FileWrite>) -> Seq<(Seq<char>, Seq<u8>, bool)> {
    w.map_values(|x: FileWrite| (x.path@, x.data@, x.gzipped))
}

/// The write of an optional file, if it is there.
pub open spec fn optional_target(dir: Seq<char>, f: Option<File>, gzipped: bool) -> Seq<
    (Seq<char>, Seq<u8>, bool),
> {
    match f {
        Some(x) => seq![(join_path(dir, x.name@), x.data@, gzipped)],
        None => seq![],
    }
}

/// The files that storing the tests writes, test by test: the stdin, stdout
/// and stderr streams (gzipped), then the arguments file holding the
/// arguments' UTF-8 bytes.
pub open spec fn test_targets(dir: Seq<char>, tests: Seq<TestCase>) -> Seq<(Seq<char>, Seq<u8>, bool)>
    decreases tests.len(),
{
    if tests.len() == 0 {
        seq![]
    } else {
        let t = tests.last();
        test_targets(dir, tests.drop_last()) + optional_target(dir, t.stdin_data, true)
            + optional_target(dir, t.stdout_reference, true) + optional_target(
            dir,
            t.stderr_reference,
            true,
        ) + if t.command_line_arguments@.len() > 0 {
            seq![
                (
                    join_path(dir, args_file_name(tests.len() as nat)),
                    encode_utf8(t.command_line_arguments@),
                    false,
                ),
            ]
        } else {
            seq![]
        }
    }
}

/// The style files that storing a problem writes.
pub open spec fn style_targets(dir: Seq<char>, styles: Seq<CodeStyle>) -> Seq<
    (Seq<char>, Seq<u8>, bool),
>
    decreases styles.len(),
{
    if styles.len() == 0 {
        seq![]
    } else {
        style_targets(dir, styles.drop_last()) + optional_target(dir, styles.last().style_file, false)
    }
}

fn push_optional(writes: &mut Vec<FileWrite>, dir: &str, file: &Option<File>, gzipped: bool)
    ensures
        write_targets(final(writes)@) == write_targets(old(writes)@) + optional_target(dir@, *file, gzipped),
{
    match file {
        Some(f) => {
            let ghost before = writes@;
            writes.push(file_write(dir, f, gzipped));
            proof {
                assert(write_targets(writes@) =~= write_targets(before) + optional_target(dir@, *file, gzipped));
            }
        },
        None => {
            proof {
                assert(write_targets(writes@) =~= write_targets(writes@) + optional_target(dir@, *file, gzipped));
            }
        },
    }
}

/// What storing a problem's content writes, and where.
pub open spec fn problem_store_plan(p: ProblemStore, s: StorageManager, response: ProblemContentResponse) -> bool {
    &&& p.root@ == problem_root_of(
        s.config.cache_directory@,
        response.course_data_id@,
        response.problem_id@,
    )
    &&& p.build_dir@ == join_path(join_path(p.root@, "lowerdir"@), "build"@)
    &&& p.tests_dir@ == join_path(join_path(p.root@, "lowerdir"@), "tests"@)
    &&& p.options_path@ == join_path(p.root@, "grading_options.yaml"@)
    &&& p.timestamp_path@ == join_path(p.root@, "timestamp.txt"@)
    &&& p.timestamp@ == timestamp_text_of(response.last_modified as int)
    &&& write_targets(p.writes@) == test_targets(p.tests_dir@, response.grading_options->0.test_cases@)
        + style_targets(p.build_dir@, response.grading_options->0.code_styles@)
    &&& options_yaml(p.options_yaml, response.grading_options->0)
}

/// After a problem's content is stored, its cached timestamp reads back as
/// the content's last modification: `timestamp.txt` is written last, in
/// the problem's directory, and its text parses to the stamp.
pub proof fn lemma_stored_timestamp_reads_back(
    p: ProblemStore,
    s: StorageManager,
    response: ProblemContentResponse,
)
    requires
        problem_store_plan(p, s, response),
    ensures
        p.timestamp_path@ == join_path(
            problem_root_of(s.config.cache_directory@, response.course_data_id@, response.problem_id@),
            "timestamp.txt"@,
        ),
        timestamp_of(Some(p.timestamp@)) == response.last_modified as int,
{
    lemma_timestamp_round_trip(response.last_modified);
}

impl StorageManager {
    /// The plan for storing a problem's content: every test stream
    /// (gzipped), an arguments file for each test that has arguments, every
    /// style file, the options and the timestamp. Content without options,
    /// or with an unknown build system, is refused.
    pub fn plan_problem_store(&self, response: &ProblemContentResponse) -> (r: Result<
        ProblemStore,
        String,
    >)
        ensures
            r is Ok <==> (response.grading_options matches Some(o) && exists|b: BuildSystem|
                build_system_code(b) == o.build_system),
            r matches Ok(p) ==> problem_store_plan(p, *self, *response),
    {
        let options = match &response.grading_options {
            Some(o) => o,
            None => return Err(String::from_str("Problem content has no grading options")),
        };
        if BuildSystem::from_code(options.build_system).is_none() {
            return Err(String::from_str("Unknown build_system value"));
        }
        let root = self.get_problem_root(&response.course_data_id, &response.problem_id);
        let lower = path_join(root.as_str(), "lowerdir");
        let build_dir = path_join(lower.as_str(), "build");
        let tests_dir = path_join(lower.as_str(), "tests");
        let mut writes: Vec<FileWrite> = Vec::new();
        let mut i: usize = 0;
        while i < options.test_cases.len()
            invariant
                i <= options.test_cases@.len(),
                write_targets(writes@) == test_targets(tests_dir@, options.test_cases@.take(i as int)),
            decreases options.test_cases@.len() - i,
        {
            proof {
                assert(options.test_cases@.take(i + 1).drop_last() =~= options.test_cases@.take(i as int));
            }
            let t = &options.test_cases[i];
            push_optional(&mut writes, tests_dir.as_str(), &t.stdin_data, true);
            push_optional(&mut writes, tests_dir.as_str(), &t.stdout_reference, true);
            push_optional(&mut writes, tests_dir.as_str(), &t.stderr_reference, true);
            if t.command_line_arguments.as_str().unicode_len() > 0 {
                let name = args_file(i as u64 + 1);
                let path = path_join(tests_dir.as_str(), name.as_str());
                let data = t.command_line_arguments.as_str().as_bytes_vec();
                let ghost before = writes@;
                writes.push(FileWrite { path, data, gzipped: false });
                proof {
                    assert(write_targets(writes@) =~= write_targets(before) + seq![
                        (
                            join_path(tests_dir@, args_file_name((i + 1) as nat)),
                            encode_utf8(t.command_line_arguments@),
                            false,
                        ),
                    ]);
                }
            }
            i = i + 1;
            proof {
                assert(write_targets(writes@) =~= test_targets(tests_dir@, options.test_cases@.take(i as int)));
            }
        }
        proof {
            assert(options.test_cases@.take(options.test_cases@.len() as int) =~= options.test_cases@);
        }
        let ghost tests_part = write_targets(writes@);
        let mut j: usize = 0;
        while j < options.code_styles.len()
            invariant
                j <= options.code_styles@.len(),
                write_targets(writes@) == tests_part + style_targets(build_dir@, options.code_styles@.take(j as int)),
            decreases options.code_styles@.len() - j,
        {
            proof {
                assert(options.code_styles@.take(j + 1).drop_last() =~= options.code_styles@.take(j as int));
            }
            push_optional(&mut writes, build_dir.as_str(), &options.code_styles[j].style_file, false);
            j = j + 1;
            proof {
                assert(write_targets(writes@) =~= tests_part + style_targets(build_dir@, options.code_styles@.take(j as int)));
            }
        }
        proof {
            assert(options.code_styles@.take(options.code_styles@.len() as int) =~= options.code_styles@);
        }
        let options_yaml = options_to_yaml(options);
        let options_path = path_join(root.as_str(), "grading_options.yaml");
        let timestamp_path = path_join(root.as_str(), "timestamp.txt");
        let timestamp = timestamp_text(response.last_modified);
        Ok(
            ProblemStore {
                root,
                build_dir,
                tests_dir,
                writes,
                options_path,
                options_yaml,
                timestamp_path,
                timestamp,
            },
        )
    }

    /// The plan for storing a submission: each solution file, as it is,
    /// into `<root>/upperdir/build`, then `submission.yaml` in the root.
    pub fn plan_submission_store(&self, submission: &Submission) -> (r: SubmissionStore)
        ensures
            r.build_dir@ == join_path(
                join_path(
                    submission_root_of(self.config.working_directory@, submission.id as int),
                    "upperdir"@,
                ),
                "build"@,
            ),
            r.writes@.len() == submission.solution_files.files@.len(),
            forall|i: int|
                0 <= i < r.writes@.len() ==> (#[trigger] r.writes@[i]).path@ == join_path(
                    r.build_dir@,
                    submission.solution_files.files@[i].name@,
                ) && r.writes@[i].data@ == submission.solution_files.files@[i].data@
                    && !r.writes@[i].gzipped,
            r.metadata_path@ == join_path(
                submission_root_of(self.config.working_directory@, submission.id as int),
                "submission.yaml"@,
            ),
            submission_yaml(r.metadata, *submission),
    {
        let root = self.get_submission_root(submission.id);
        let upper = path_join(root.as_str(), "upperdir");
        let build_dir = path_join(upper.as_str(), "build");
        let mut writes: Vec<FileWrite> = Vec::new();
        let mut i: usize = 0;
        while i < submission.solution_files.files.len()
            invariant
                i <= submission.solution_files.files@.len(),
                writes@.len() == i,
                forall|k: int|
                    0 <= k < i ==> (#[trigger] writes@[k]).path@ == join_path(
                        build_dir@,
                        submission.solution_files.files@[k].name@,
                    ) && writes@[k].data@ == submission.solution_files.files@[k].data@
                        && !writes@[k].gzipped,
            decreases submission.solution_files.files@.len() - i,
        {
            writes.push(file_write(build_dir.as_str(), &submission.solution_files.files[i], false));
            i = i + 1;
        }
        SubmissionStore {
            build_dir,
            writes,
            metadata_path: path_join(root.as_str(), "submission.yaml"),
            metadata: submission_to_yaml(submission),
        }
    }
}

} // verus!
