//! A YAML document tree, and the metadata files and configuration that the
//! worker reads and writes as YAML.

use vstd::prelude::*;
use vstd::string::*;

use crate::limits::GradingLimits;
use crate::model::{
    build_system_code, build_system_name, BuildSystem, CodeStyle, File, FileSet, GradingOptions,
    SolutionStatus, Submission, TestCase,
};
use crate::build_props::LanguageBuildProperties;
use crate::storage::{join_path, path_join};
use crate::text::{zero_padded, push_zero_padded};

verus! {

/// A node of a YAML document: the kinds that the worker reads and writes.
#[derive(Debug)]
pub enum YamlValue {
    Integer(i64),
    Boolean(bool),
    Text(String),
    List(Vec<YamlValue>),
    /// A mapping with text keys, in document order.
    Hash(Vec<(String, YamlValue)>),
    /// Any other node: null, a real number, an alias.
    Other,
}

/// The value of `key` in a mapping's entries: the first entry with that key.
pub open spec fn entry_of(e: Seq<(String, YamlValue)>, key: Seq<char>) -> Option<YamlValue>
    decreases e.len(),
{
    if e.len() == 0 {
        None
    } else if e[0].0@ == key {
        Some(e[0].1)
    } else {
        entry_of(e.drop_first(), key)
    }
}

proof fn lemma_entry_skip(e: Seq<(String, YamlValue)>, k: Seq<char>, i: int)
    requires
        0 <= i <= e.len(),
        forall|j: int| 0 <= j < i ==> e[j].0@ != k,
    ensures
        entry_of(e, k) == entry_of(e.skip(i), k),
    decreases i,
{
    if i > 0 {
        lemma_entry_skip(e, k, i - 1);
        assert(e.skip(i - 1).drop_first() =~= e.skip(i));
        assert(e.skip(i - 1)[0] == e[i - 1]);
    } else {
        assert(e.skip(0) =~= e);
    }
}

proof fn lemma_entry_at(e: Seq<(String, YamlValue)>, k: Seq<char>, i: int)
    requires
        0 <= i < e.len(),
        e[i].0@ == k,
        forall|j: int| 0 <= j < i ==> e[j].0@ != k,
    ensures
        entry_of(e, k) == Some(e[i].1),
{
    lemma_entry_skip(e, k, i);
    assert(e.skip(i)[0] == e[i]);
}

/// The value of `key` where `v` is a mapping.
pub open spec fn field(v: YamlValue, key: Seq<char>) -> Option<YamlValue> {
    match v {
        YamlValue::Hash(e) => entry_of(e@, key),
        _ => None,
    }
}

/// The integer value of `key`, where it is one.
pub open spec fn int_field(v: YamlValue, key: Seq<char>) -> Option<i64> {
    match field(v, key) {
        Some(YamlValue::Integer(i)) => Some(i),
        _ => None,
    }
}

/// The boolean value of `key`, where it is one.
pub open spec fn bool_field(v: YamlValue, key: Seq<char>) -> Option<bool> {
    match field(v, key) {
        Some(YamlValue::Boolean(b)) => Some(b),
        _ => None,
    }
}

/// The text value of `key`, where it is one.
pub open spec fn text_field(v: YamlValue, key: Seq<char>) -> Option<Seq<char>> {
    match field(v, key) {
        Some(YamlValue::Text(s)) => Some(s@),
        _ => None,
    }
}

fn same_key(a: &String, b: &str) -> (r: bool)
    ensures
        r == (a@ == b@),
{
    a.as_str().unicode_len() == b.unicode_len() && crate::build_props::equal_text(a.as_str(), b)
}

impl YamlValue {
    /// The value of `key`, where this is a mapping that has it.
    pub fn get(&self, key: &str) -> (r: Option<&YamlValue>)
        ensures
            r matches Some(x) ==> field(*self, key@) == Some(*x),
            r is None ==> field(*self, key@) is None,
    {
        match self {
            YamlValue::Hash(e) => {
                let mut i: usize = 0;
                while i < e.len()
                    invariant
                        i <= e@.len(),
                        *self matches YamlValue::Hash(h) && h@ == e@,
                        forall|j: int| 0 <= j < i ==> e@[j].0@ != key@,
                    decreases e@.len() - i,
                {
                    if same_key(&e[i].0, key) {
                        proof {
                            lemma_entry_skip(e@, key@, i as int);
                            assert(e@.skip(i as int)[0] == e@[i as int]);
                        }
                        return Some(&e[i].1);
                    }
                    i = i + 1;
                }
                proof {
                    lemma_entry_skip(e@, key@, e@.len() as int);
                }
                None
            },
            _ => None,
        }
    }

    /// The integer value of `key`, where it is one.
    pub fn get_i64(&self, key: &str) -> (r: Option<i64>)
        ensures
            r == int_field(*self, key@),
    {
        match self.get(key) {
            Some(YamlValue::Integer(i)) => Some(*i),
            _ => None,
        }
    }

    /// The boolean value of `key`, where it is one.
    pub fn get_bool(&self, key: &str) -> (r: Option<bool>)
        ensures
            r == bool_field(*self, key@),
    {
        match self.get(key) {
            Some(YamlValue::Boolean(b)) => Some(*b),
            _ => None,
        }
    }

    /// The text value of `key`, where it is one.
    pub fn get_text(&self, key: &str) -> (r: Option<String>)
        ensures
            r matches Some(s) ==> text_field(*self, key@) == Some(s@),
            r is None ==> text_field(*self, key@) is None,
    {
        match self.get(key) {
            Some(YamlValue::Text(s)) => Some(s.clone()),
            _ => None,
        }
    }
}

/// A mapping key.
pub fn key(k: &str) -> (r: String)
    ensures
        r@ == k@,
{
    String::from_str(k)
}

/// The submission metadata that `submission.yaml` holds.
pub open spec fn submission_yaml(y: YamlValue, s: Submission) -> bool {
    &&& y matches YamlValue::Hash(e)
    &&& int_field(y, "id"@) == Some(s.id)
    &&& text_field(y, "course_id"@) == Some(s.course_data_id@)
    &&& text_field(y, "problem_id"@) == Some(s.problem_id@)
    &&& field(y, "solution_files"@) matches Some(YamlValue::List(l)) && l@.len()
        == s.solution_files.files@.len() && forall|i: int|
        0 <= i < l@.len() ==> (#[trigger] l@[i] matches YamlValue::Text(n) && n@
            == s.solution_files.files@[i].name@)
}

/// The names of a list of text nodes; `None` where a node is not text.
pub open spec fn names_of(l: Seq<YamlValue>) -> Option<Seq<Seq<char>>>
    decreases l.len(),
{
    if l.len() == 0 {
        Some(seq![])
    } else {
        match (names_of(l.drop_last()), l.last()) {
            (Some(r), YamlValue::Text(n)) => Some(r.push(n@)),
            _ => None,
        }
    }
}

/// What reading `submission.yaml` gives: its id (required), course and
/// problem ids (empty where absent) and the solution files' names (none
/// where absent). `None` where a field has the wrong kind.
pub open spec fn submission_read(y: YamlValue) -> Option<(i64, Seq<char>, Seq<char>, Seq<Seq<char>>)> {
    let course = field(y, "course_id"@);
    let problem = field(y, "problem_id"@);
    let files = field(y, "solution_files"@);
    if int_field(y, "id"@) is None {
        None
    } else if !(course is None || course matches Some(YamlValue::Text(_))) {
        None
    } else if !(problem is None || problem matches Some(YamlValue::Text(_))) {
        None
    } else {
        let names = match files {
            None => Some(seq![]),
            Some(YamlValue::List(l)) => names_of(l@),
            _ => None,
        };
        match names {
            None => None,
            Some(n) => Some(
                (
                    int_field(y, "id"@)->0,
                    match text_field(y, "course_id"@) {
                        Some(c) => c,
                        None => seq![],
                    },
                    match text_field(y, "problem_id"@) {
                        Some(p) => p,
                        None => seq![],
                    },
                    n,
                ),
            ),
        }
    }
}

/// The tree of `submission.yaml`: id, course id, problem id and the names
/// of the solution files.
pub fn submission_to_yaml(s: &Submission) -> (r: YamlValue)
    ensures
        submission_yaml(r, *s),
{
    let mut names: Vec<YamlValue> = Vec::new();
    let mut i: usize = 0;
    while i < s.solution_files.files.len()
        invariant
            i <= s.solution_files.files@.len(),
            names@.len() == i,
            forall|j: int|
                0 <= j < i ==> (#[trigger] names@[j] matches YamlValue::Text(n) && n@
                    == s.solution_files.files@[j].name@),
        decreases s.solution_files.files@.len() - i,
    {
        names.push(YamlValue::Text(s.solution_files.files[i].name.clone()));
        i = i + 1;
    }
    let mut e: Vec<(String, YamlValue)> = Vec::new();
    e.push((key("id"), YamlValue::Integer(s.id)));
    e.push((key("course_id"), YamlValue::Text(s.course_data_id.clone())));
    e.push((key("problem_id"), YamlValue::Text(s.problem_id.clone())));
    e.push((key("solution_files"), YamlValue::List(names)));
    let r = YamlValue::Hash(e);
    proof {
        reveal_strlit("id");
        reveal_strlit("course_id");
        reveal_strlit("problem_id");
        reveal_strlit("solution_files");
        let ev = e@;
        assert(ev[0].0@ == "id"@);
        assert(ev[1].0@ == "course_id"@);
        assert(ev[2].0@ == "problem_id"@);
        assert(ev[3].0@ == "solution_files"@);
        assert(entry_of(ev, "id"@) == Some(ev[0].1));
        assert(ev.drop_first()[0] == ev[1]);
        assert(ev.drop_first().drop_first()[0] == ev[2]);
        assert(ev.drop_first().drop_first().drop_first()[0] == ev[3]);
        assert("course_id"@ != "id"@);
        assert("problem_id"@ != "id"@ && "problem_id"@ != "course_id"@);
        assert("solution_files"@ != "id"@ && "solution_files"@ != "course_id"@ && "solution_files"@
            != "problem_id"@);
        lemma_entry_at(ev, "course_id"@, 1);
        lemma_entry_at(ev, "problem_id"@, 2);
        lemma_entry_at(ev, "solution_files"@, 3);
    }
    r
}

fn text_or_empty(v: Option<&YamlValue>) -> (r: Option<String>)
    ensures
        v is None ==> (r matches Some(s) && s@.len() == 0),
        v matches Some(YamlValue::Text(t)) ==> (r matches Some(s) && s@ == t@),
        v matches Some(x) ==> (!(x is Text) ==> r is None),
{
    match v {
        None => Some(String::new()),
        Some(YamlValue::Text(t)) => Some(t.clone()),
        Some(_) => None,
    }
}

fn names_from(l: &Vec<YamlValue>) -> (r: Option<Vec<File>>)
    ensures
        r matches Some(f) ==> names_of(l@) matches Some(n) && n.len() == f@.len() && forall|i: int|
            0 <= i < n.len() ==> #[trigger] f@[i].name@ == n[i] && f@[i].data@.len() == 0,
        r is None ==> names_of(l@) is None,
{
    let mut files: Vec<File> = Vec::new();
    let mut i: usize = 0;
    while i < l.len()
        invariant
            i <= l@.len(),
            names_of(l@.take(i as int)) matches Some(n) && n.len() == files@.len() && forall|k: int|
                0 <= k < n.len() ==> #[trigger] files@[k].name@ == n[k] && files@[k].data@.len() == 0,
        decreases l@.len() - i,
    {
        proof {
            assert(l@.take(i + 1).drop_last() =~= l@.take(i as int));
        }
        match &l[i] {
            YamlValue::Text(n) => {
                files.push(File { name: n.clone(), data: Vec::new() });
            },
            _ => {
                proof {
                    lemma_names_of_prefix(l@, i as int + 1);
                }
                return None;
            },
        }
        i = i + 1;
    }
    proof {
        assert(l@.take(l@.len() as int) =~= l@);
    }
    Some(files)
}

proof fn lemma_names_of_prefix(l: Seq<YamlValue>, i: int)
    requires
        0 <= i <= l.len(),
        names_of(l.take(i)) is None,
    ensures
        names_of(l) is None,
    decreases l.len() - i,
{
    if i < l.len() {
        assert(l.take(i + 1).drop_last() =~= l.take(i));
        lemma_names_of_prefix(l, i + 1);
    } else {
        assert(l.take(i) =~= l);
    }
}

/// Reads the tree of `submission.yaml`; its files carry names only, and
/// its status is the default.
pub fn submission_from_yaml(y: &YamlValue) -> (r: Option<Submission>)
    ensures
        r matches Some(s) ==> (submission_read(*y) matches Some(t) && s.id == t.0
            && s.course_data_id@ == t.1 && s.problem_id@ == t.2 && s.solution_files.files@.len()
            == t.3.len() && forall|i: int|
            0 <= i < t.3.len() ==> #[trigger] s.solution_files.files@[i].name@ == t.3[i]),
        r matches Some(s) ==> s.status == SolutionStatus::AnyStatusOrNull && s.style_error_log@.len()
            == 0 && s.build_error_log@.len() == 0,
        r is None ==> submission_read(*y) is None,
{
    let id = match y.get_i64("id") {
        Some(i) => i,
        None => return None,
    };
    let course = match text_or_empty(y.get("course_id")) {
        Some(c) => c,
        None => return None,
    };
    let problem = match text_or_empty(y.get("problem_id")) {
        Some(p) => p,
        None => return None,
    };
    let files = match y.get("solution_files") {
        None => Vec::new(),
        Some(YamlValue::List(l)) => match names_from(l) {
            Some(f) => f,
            None => return None,
        },
        Some(_) => return None,
    };
    Some(
        Submission {
            id,
            course_data_id: course,
            problem_id: problem,
            solution_files: FileSet { files },
            status: SolutionStatus::AnyStatusOrNull,
            style_error_log: String::new(),
            build_error_log: String::new(),
        },
    )
}

/// Reading back the metadata of a stored submission gives its id and the
/// names of its solution files, in order.
pub proof fn lemma_submission_round_trip(s: Submission, y: YamlValue)
    requires
        submission_yaml(y, s),
    ensures
        submission_read(y) matches Some(t) && t.0 == s.id && t.1 == s.course_data_id@ && t.2
            == s.problem_id@ && t.3 == s.solution_files.files@.map_values(|f: File| f.name@),
{
    let l = match field(y, "solution_files"@) {
        Some(YamlValue::List(l)) => l@,
        _ => seq![],
    };
    lemma_names_of_texts(l, s.solution_files.files@);
}

proof fn lemma_names_of_texts(l: Seq<YamlValue>, files: Seq<File>)
    requires
        l.len() == files.len(),
        forall|i: int|
            0 <= i < l.len() ==> (#[trigger] l[i] matches YamlValue::Text(n) && n@ == files[i].name@),
    ensures
        names_of(l) == Some(files.map_values(|f: File| f.name@)),
    decreases l.len(),
{
    if l.len() > 0 {
        let ld = l.drop_last();
        let fd = files.drop_last();
        assert forall|i: int| 0 <= i < ld.len() implies (#[trigger] ld[i] matches YamlValue::Text(n)
            && n@ == fd[i].name@) by {
            assert(ld[i] == l[i]);
        }
        lemma_names_of_texts(ld, fd);
        assert(l.last() == l[l.len() - 1]);
        assert(files.map_values(|f: File| f.name@) =~= fd.map_values(|f: File| f.name@).push(
            files.last().name@,
        ));
    } else {
        assert(files.map_values(|f: File| f.name@) =~= Seq::<Seq<char>>::empty());
    }
}

/// An entry with key `k` and integer value `v`.
pub open spec fn int_entry(e: (String, YamlValue), k: Seq<char>, v: int) -> bool {
    e.0@ == k && (e.1 matches YamlValue::Integer(i) && i == v)
}

/// The tree of a limits block: every limit, in a fixed order.
pub fn limits_to_yaml(l: &GradingLimits) -> (r: YamlValue)
    ensures
        r matches YamlValue::Hash(e) && e@.len() == 10 && int_entry(
            e@[0],
            "stack_size_limit_mb"@,
            l.stack_size_limit_mb as int,
        ) && int_entry(e@[1], "memory_max_limit_mb"@, l.memory_max_limit_mb as int) && int_entry(
            e@[2],
            "cpu_time_limit_sec"@,
            l.cpu_time_limit_sec as int,
        ) && int_entry(e@[3], "real_time_limit_sec"@, l.real_time_limit_sec as int) && int_entry(
            e@[4],
            "proc_count_limit"@,
            l.proc_count_limit as int,
        ) && int_entry(e@[5], "fd_count_limit"@, l.fd_count_limit as int) && int_entry(
            e@[6],
            "stdout_size_limit_mb"@,
            l.stdout_size_limit_mb as int,
        ) && int_entry(e@[7], "stderr_size_limit_mb"@, l.stderr_size_limit_mb as int) && e@[8].0@
            == "allow_network"@ && e@[8].1 == YamlValue::Boolean(l.allow_network) && int_entry(
            e@[9],
            "new_proc_delay_msec"@,
            l.new_proc_delay_msec as int,
        ),
{
    let mut e: Vec<(String, YamlValue)> = Vec::new();
    e.push((key("stack_size_limit_mb"), YamlValue::Integer(l.stack_size_limit_mb as i64)));
    e.push((key("memory_max_limit_mb"), YamlValue::Integer(l.memory_max_limit_mb as i64)));
    e.push((key("cpu_time_limit_sec"), YamlValue::Integer(l.cpu_time_limit_sec as i64)));
    e.push((key("real_time_limit_sec"), YamlValue::Integer(l.real_time_limit_sec as i64)));
    e.push((key("proc_count_limit"), YamlValue::Integer(l.proc_count_limit as i64)));
    e.push((key("fd_count_limit"), YamlValue::Integer(l.fd_count_limit as i64)));
    e.push((key("stdout_size_limit_mb"), YamlValue::Integer(l.stdout_size_limit_mb as i64)));
    e.push((key("stderr_size_limit_mb"), YamlValue::Integer(l.stderr_size_limit_mb as i64)));
    e.push((key("allow_network"), YamlValue::Boolean(l.allow_network)));
    e.push((key("new_proc_delay_msec"), YamlValue::Integer(l.new_proc_delay_msec as i64)));
    YamlValue::Hash(e)
}

/// A limit read from a limits block: its integer value (truncated to 32
/// bits); zero where it is absent or not an integer.
pub open spec fn limit_read(y: YamlValue, k: Seq<char>) -> i32 {
    match int_field(y, k) {
        Some(i) => i as i32,
        None => 0,
    }
}

fn read_limit(y: &YamlValue, k: &str) -> (r: i32)
    ensures
        r == limit_read(*y, k@),
{
    match y.get_i64(k) {
        Some(i) => i as i32,
        None => 0,
    }
}

/// Reads a limits block; absent or malformed limits are unset.
pub fn limits_from_yaml(y: &YamlValue) -> (r: GradingLimits)
    ensures
        r == (GradingLimits {
            stack_size_limit_mb: limit_read(*y, "stack_size_limit_mb"@),
            memory_max_limit_mb: limit_read(*y, "memory_max_limit_mb"@),
            cpu_time_limit_sec: limit_read(*y, "cpu_time_limit_sec"@),
            real_time_limit_sec: limit_read(*y, "real_time_limit_sec"@),
            proc_count_limit: limit_read(*y, "proc_count_limit"@),
            fd_count_limit: limit_read(*y, "fd_count_limit"@),
            stdout_size_limit_mb: limit_read(*y, "stdout_size_limit_mb"@),
            stderr_size_limit_mb: limit_read(*y, "stderr_size_limit_mb"@),
            allow_network: bool_field(*y, "allow_network"@) == Some(true),
            new_proc_delay_msec: limit_read(*y, "new_proc_delay_msec"@),
        }),
{
    GradingLimits {
        stack_size_limit_mb: read_limit(y, "stack_size_limit_mb"),
        memory_max_limit_mb: read_limit(y, "memory_max_limit_mb"),
        cpu_time_limit_sec: read_limit(y, "cpu_time_limit_sec"),
        real_time_limit_sec: read_limit(y, "real_time_limit_sec"),
        proc_count_limit: read_limit(y, "proc_count_limit"),
        fd_count_limit: read_limit(y, "fd_count_limit"),
        stdout_size_limit_mb: read_limit(y, "stdout_size_limit_mb"),
        stderr_size_limit_mb: read_limit(y, "stderr_size_limit_mb"),
        allow_network: y.get_bool("allow_network") == Some(true),
        new_proc_delay_msec: read_limit(y, "new_proc_delay_msec"),
    }
}

/// The name of a test's arguments file: its 1-based number, three digits.
pub open spec fn args_file_name(number: nat) -> Seq<char> {
    zero_padded(number, 3) + ".args"@
}

/// The name of the arguments file of the test with this number.
pub fn args_file(number: u64) -> (r: String)
    ensures
        r@ == args_file_name(number as nat),
{
    let mut r = String::new();
    push_zero_padded(&mut r, number, 3);
    r.append(".args");
    r
}

proof fn lemma_entry_push(e: Seq<(String, YamlValue)>, k2: String, v: YamlValue, k: Seq<char>)
    ensures
        entry_of(e.push((k2, v)), k) == if entry_of(e, k) is Some {
            entry_of(e, k)
        } else if k2@ == k {
            Some(v)
        } else {
            None
        },
    decreases e.len(),
{
    let p = e.push((k2, v));
    if e.len() == 0 {
        assert(p[0] == (k2, v));
        assert(p.drop_first() =~= Seq::<(String, YamlValue)>::empty());
        assert(entry_of(p.drop_first(), k) is None);
        assert(entry_of(e, k) is None);
    } else {
        assert(p[0] == e[0]);
        if e[0].0@ != k {
            assert(p.drop_first() =~= e.drop_first().push((k2, v)));
            lemma_entry_push(e.drop_first(), k2, v, k);
        }
    }
}

/// The name of an optional file.
pub open spec fn file_name_opt(f: Option<File>) -> Option<Seq<char>> {
    match f {
        Some(x) => Some(x.name@),
        None => None,
    }
}

/// The tree of a test names its streams, and its arguments file (by the
/// test's 1-based number) where it has arguments.
pub open spec fn test_yaml(v: YamlValue, t: TestCase, number: nat) -> bool {
    &&& v is Hash
    &&& optional_text(field(v, "stdin"@))
    &&& optional_text(field(v, "stdout"@))
    &&& optional_text(field(v, "stderr"@))
    &&& optional_text(field(v, "args"@))
    &&& text_field(v, "stdin"@) == file_name_opt(t.stdin_data)
    &&& text_field(v, "stdout"@) == file_name_opt(t.stdout_reference)
    &&& text_field(v, "stderr"@) == file_name_opt(t.stderr_reference)
    &&& text_field(v, "args"@) == if t.command_line_arguments@.len() > 0 {
        Some(args_file_name(number))
    } else {
        None
    }
}

/// The style rules that carry a style file: suffix and file name.
pub open spec fn style_rules(styles: Seq<CodeStyle>) -> Seq<(Seq<char>, Seq<char>)>
    decreases styles.len(),
{
    if styles.len() == 0 {
        seq![]
    } else {
        let r = style_rules(styles.drop_last());
        match styles.last().style_file {
            Some(f) => r.push((styles.last().source_file_suffix@, f.name@)),
            None => r,
        }
    }
}

/// The tree of a style rule names its language and style file.
pub open spec fn style_yaml(v: YamlValue, rule: (Seq<char>, Seq<char>)) -> bool {
    &&& v is Hash
    &&& text_field(v, "language"@) == Some(rule.0)
    &&& text_field(v, "style_file"@) == Some(rule.1)
}

fn push_entry(e: &mut Vec<(String, YamlValue)>, k: String, v: YamlValue)
    ensures
        final(e)@ == old(e)@.push((k, v)),
        forall|q: Seq<char>|
            #[trigger] entry_of(final(e)@, q) == if entry_of(old(e)@, q) is Some {
                entry_of(old(e)@, q)
            } else if k@ == q {
                Some(v)
            } else {
                None
            },
{
    let ghost kk = k;
    let ghost vv = v;
    e.push((k, v));
    proof {
        assert forall|q: Seq<char>| #[trigger] entry_of(e@, q) == if entry_of(old(e)@, q) is Some {
            entry_of(old(e)@, q)
        } else if kk@ == q {
            Some(vv)
        } else {
            None
        } by {
            lemma_entry_push(old(e)@, kk, vv, q);
        }
    }
}

proof fn lemma_stream_keys()
    ensures
        "stdin"@ != "stdout"@,
        "stdin"@ != "stderr"@,
        "stdin"@ != "args"@,
        "stdout"@ != "stderr"@,
        "stdout"@ != "args"@,
        "stderr"@ != "args"@,
        "language"@ != "style_file"@,
{
    reveal_strlit("stdin");
    reveal_strlit("stdout");
    reveal_strlit("stderr");
    reveal_strlit("args");
    reveal_strlit("language");
    reveal_strlit("style_file");
    assert("stdin"@.len() == 5 && "stdout"@.len() == 6 && "stderr"@.len() == 6 && "args"@.len() == 4);
    assert("stdout"@[3] != "stderr"@[3]);
    assert("language"@.len() != "style_file"@.len());
}

/// The tree of one test.
fn test_to_yaml(t: &TestCase, number: u64) -> (r: YamlValue)
    ensures
        test_yaml(r, *t, number as nat),
{
    proof {
        lemma_stream_keys();
    }
    let mut e: Vec<(String, YamlValue)> = Vec::new();
    match &t.stdin_data {
        Some(f) => push_entry(&mut e, key("stdin"), YamlValue::Text(f.name.clone())),
        None => {},
    }
    match &t.stdout_reference {
        Some(f) => push_entry(&mut e, key("stdout"), YamlValue::Text(f.name.clone())),
        None => {},
    }
    match &t.stderr_reference {
        Some(f) => push_entry(&mut e, key("stderr"), YamlValue::Text(f.name.clone())),
        None => {},
    }
    if t.command_line_arguments.as_str().unicode_len() > 0 {
        push_entry(&mut e, key("args"), YamlValue::Text(args_file(number)));
    }
    YamlValue::Hash(e)
}

/// The tree of a limits block: every limit, in a fixed order.
pub open spec fn limits_yaml(r: YamlValue, l: GradingLimits) -> bool {
    r matches YamlValue::Hash(e) && e@.len() == 10 && int_entry(
        e@[0],
        "stack_size_limit_mb"@,
        l.stack_size_limit_mb as int,
    ) && int_entry(e@[1], "memory_max_limit_mb"@, l.memory_max_limit_mb as int) && int_entry(
        e@[2],
        "cpu_time_limit_sec"@,
        l.cpu_time_limit_sec as int,
    ) && int_entry(e@[3], "real_time_limit_sec"@, l.real_time_limit_sec as int) && int_entry(
        e@[4],
        "proc_count_limit"@,
        l.proc_count_limit as int,
    ) && int_entry(e@[5], "fd_count_limit"@, l.fd_count_limit as int) && int_entry(
        e@[6],
        "stdout_size_limit_mb"@,
        l.stdout_size_limit_mb as int,
    ) && int_entry(e@[7], "stderr_size_limit_mb"@, l.stderr_size_limit_mb as int) && e@[8].0@
        == "allow_network"@ && e@[8].1 == YamlValue::Boolean(l.allow_network) && int_entry(
        e@[9],
        "new_proc_delay_msec"@,
        l.new_proc_delay_msec as int,
    )
}

proof fn lemma_option_keys()
    ensures
        "limits"@ != "build_system"@,
        "limits"@ != "style_checkers"@,
        "limits"@ != "tests"@,
        "build_system"@ != "style_checkers"@,
        "build_system"@ != "tests"@,
        "style_checkers"@ != "tests"@,
{
    reveal_strlit("limits");
    reveal_strlit("build_system");
    reveal_strlit("style_checkers");
    reveal_strlit("tests");
    assert("limits"@.len() == 6 && "build_system"@.len() == 12 && "style_checkers"@.len() == 14
        && "tests"@.len() == 5);
}

/// The tree of `grading_options.yaml` describes the options.
pub open spec fn options_yaml(r: YamlValue, o: GradingOptions) -> bool {
    &&& r is Hash
    &&& o.limits matches Some(l) ==> (field(r, "limits"@) matches Some(x) && limits_yaml(x, l))
    &&& o.limits is None ==> field(r, "limits"@) is None
    &&& exists|b: BuildSystem|
        build_system_code(b) == o.build_system && text_field(r, "build_system"@) == Some(
            build_system_name(b),
        )
    &&& style_rules(o.code_styles@).len() == 0 ==> field(r, "style_checkers"@) is None
    &&& style_rules(o.code_styles@).len() > 0 ==> (field(r, "style_checkers"@) matches Some(
        YamlValue::List(l),
    ) && l@.len() == style_rules(o.code_styles@).len() && forall|i: int|
        0 <= i < l@.len() ==> style_yaml(#[trigger] l@[i], style_rules(o.code_styles@)[i]))
    &&& field(r, "tests"@) matches Some(YamlValue::List(l)) && l@.len() == o.test_cases@.len()
        && forall|i: int|
        0 <= i < l@.len() ==> test_yaml(#[trigger] l@[i], o.test_cases@[i], (i + 1) as nat)
}

/// The tree of `grading_options.yaml`: the limits block where there are
/// limits, the build system's name, the style rules that carry a style
/// file (the list only where there is one), and every test.
pub fn options_to_yaml(o: &GradingOptions) -> (r: YamlValue)
    requires
        exists|b: BuildSystem| build_system_code(b) == o.build_system,
    ensures
        options_yaml(r, *o),
{
    proof {
        lemma_option_keys();
        lemma_stream_keys();
    }
    let mut e: Vec<(String, YamlValue)> = Vec::new();
    match &o.limits {
        Some(l) => push_entry(&mut e, key("limits"), limits_to_yaml(l)),
        None => {},
    }
    let b = BuildSystem::from_code(o.build_system).unwrap();
    push_entry(&mut e, key("build_system"), YamlValue::Text(String::from_str(b.as_str_name())));
    let mut styles: Vec<YamlValue> = Vec::new();
    let mut i: usize = 0;
    while i < o.code_styles.len()
        invariant
            i <= o.code_styles@.len(),
            styles@.len() == style_rules(o.code_styles@.take(i as int)).len(),
            forall|k: int|
                0 <= k < styles@.len() ==> style_yaml(
                    #[trigger] styles@[k],
                    style_rules(o.code_styles@.take(i as int))[k],
                ),
        decreases o.code_styles@.len() - i,
    {
        proof {
            lemma_stream_keys();
            assert(o.code_styles@.take(i + 1).drop_last() =~= o.code_styles@.take(i as int));
        }
        match &o.code_styles[i].style_file {
            Some(f) => {
                let mut entry: Vec<(String, YamlValue)> = Vec::new();
                push_entry(
                    &mut entry,
                    key("language"),
                    YamlValue::Text(o.code_styles[i].source_file_suffix.clone()),
                );
                push_entry(&mut entry, key("style_file"), YamlValue::Text(f.name.clone()));
                styles.push(YamlValue::Hash(entry));
            },
            None => {},
        }
        i = i + 1;
    }
    proof {
        assert(o.code_styles@.take(o.code_styles@.len() as int) =~= o.code_styles@);
    }
    if styles.len() > 0 {
        push_entry(&mut e, key("style_checkers"), YamlValue::List(styles));
    }
    let mut tests: Vec<YamlValue> = Vec::new();
    let mut j: usize = 0;
    while j < o.test_cases.len()
        invariant
            j <= o.test_cases@.len(),
            tests@.len() == j,
            forall|k: int|
                0 <= k < j ==> test_yaml(#[trigger] tests@[k], o.test_cases@[k], (k + 1) as nat),
        decreases o.test_cases@.len() - j,
    {
        tests.push(test_to_yaml(&o.test_cases[j], j as u64 + 1));
        j = j + 1;
    }
    push_entry(&mut e, key("tests"), YamlValue::List(tests));
    YamlValue::Hash(e)
}

proof fn lemma_limit_keys_distinct(e: Seq<(String, YamlValue)>)
    requires
        e.len() == 10,
        e[0].0@ == "stack_size_limit_mb"@,
        e[1].0@ == "memory_max_limit_mb"@,
        e[2].0@ == "cpu_time_limit_sec"@,
        e[3].0@ == "real_time_limit_sec"@,
        e[4].0@ == "proc_count_limit"@,
        e[5].0@ == "fd_count_limit"@,
        e[6].0@ == "stdout_size_limit_mb"@,
        e[7].0@ == "stderr_size_limit_mb"@,
        e[8].0@ == "allow_network"@,
        e[9].0@ == "new_proc_delay_msec"@,
    ensures
        forall|i: int, j: int| 0 <= i < j < 10 ==> e[i].0@ != e[j].0@,
{
    reveal_strlit("stack_size_limit_mb");
    reveal_strlit("memory_max_limit_mb");
    reveal_strlit("cpu_time_limit_sec");
    reveal_strlit("real_time_limit_sec");
    reveal_strlit("proc_count_limit");
    reveal_strlit("fd_count_limit");
    reveal_strlit("stdout_size_limit_mb");
    reveal_strlit("stderr_size_limit_mb");
    reveal_strlit("allow_network");
    reveal_strlit("new_proc_delay_msec");
    assert forall|i: int, j: int| 0 <= i < j < 10 implies e[i].0@ != e[j].0@ by {
        assert(e[i].0@[0] != e[j].0@[0] || e[i].0@.len() != e[j].0@.len() || e[i].0@[3]
            != e[j].0@[3]);
    }
}

/// A limits block that was written reads back as the same limits.
pub proof fn lemma_limits_round_trip(x: YamlValue, l: GradingLimits)
    requires
        limits_yaml(x, l),
    ensures
        limits_from_yaml_spec(x) == l,
{
    let e = match x {
        YamlValue::Hash(e) => e@,
        _ => seq![],
    };
    lemma_limit_keys_distinct(e);
    lemma_entry_at(e, "stack_size_limit_mb"@, 0);
    lemma_entry_at(e, "memory_max_limit_mb"@, 1);
    lemma_entry_at(e, "cpu_time_limit_sec"@, 2);
    lemma_entry_at(e, "real_time_limit_sec"@, 3);
    lemma_entry_at(e, "proc_count_limit"@, 4);
    lemma_entry_at(e, "fd_count_limit"@, 5);
    lemma_entry_at(e, "stdout_size_limit_mb"@, 6);
    lemma_entry_at(e, "stderr_size_limit_mb"@, 7);
    lemma_entry_at(e, "allow_network"@, 8);
    lemma_entry_at(e, "new_proc_delay_msec"@, 9);
}

/// Stored options read back: the tree that describes options is read
/// without error, and gives their build system, style rules and test
/// streams.
pub proof fn lemma_options_round_trip(o: GradingOptions, y: YamlValue)
    requires
        options_yaml(y, o),
    ensures
        build_system_ok(field(y, "build_system"@)),
        o.limits matches Some(l) ==> (field(y, "limits"@) matches Some(x) && x is Hash
            && limits_from_yaml_spec(x) == l),
        o.limits is None ==> field(y, "limits"@) is None,
        styles_ok(field(y, "style_checkers"@)),
        tests_ok(field(y, "tests"@)),
        list_items(field(y, "tests"@)).len() == o.test_cases@.len(),
        forall|i: int|
            0 <= i < o.test_cases@.len() ==> text_field(#[trigger] list_items(field(y, "tests"@))[i], "stdin"@)
                == file_name_opt(o.test_cases@[i].stdin_data) && text_field(
                list_items(field(y, "tests"@))[i],
                "stdout"@,
            ) == file_name_opt(o.test_cases@[i].stdout_reference) && text_field(
                list_items(field(y, "tests"@))[i],
                "stderr"@,
            ) == file_name_opt(o.test_cases@[i].stderr_reference),
        list_items(field(y, "style_checkers"@)).len() == style_rules(o.code_styles@).len(),
        forall|i: int|
            0 <= i < style_rules(o.code_styles@).len() ==> text_field(
                #[trigger] list_items(field(y, "style_checkers"@))[i],
                "language"@,
            ) == Some(style_rules(o.code_styles@)[i].0) && text_field(
                list_items(field(y, "style_checkers"@))[i],
                "style_file"@,
            ) == Some(style_rules(o.code_styles@)[i].1),
{
    let b = choose|b: BuildSystem|
        build_system_code(b) == o.build_system && text_field(y, "build_system"@) == Some(
            build_system_name(b),
        );
    assert(text_field(y, "build_system"@) == Some(build_system_name(b)));
    if let Some(lim) = o.limits {
        lemma_limits_round_trip(field(y, "limits"@)->0, lim);
    }
    let l = list_items(field(y, "tests"@));
    assert forall|i: int| 0 <= i < l.len() implies test_entry_ok(#[trigger] l[i]) by {
        assert(test_yaml(l[i], o.test_cases@[i], (i + 1) as nat));
    }
    if style_rules(o.code_styles@).len() > 0 {
        let m = list_items(field(y, "style_checkers"@));
        assert forall|i: int| 0 <= i < m.len() implies style_entry_ok(#[trigger] m[i]) by {
            assert(style_yaml(m[i], style_rules(o.code_styles@)[i]));
        }
    }
}

/// What reading `grading_options.yaml` gives besides the options: the
/// arguments files of the tests that name one, to be loaded into their
/// tests, by test index.
pub struct OptionsRead {
    pub options: GradingOptions,
    pub args_files: Vec<(usize, String)>,
}

fn file_named(name: String) -> (r: File)
    ensures
        r.name == name,
        r.data@.len() == 0,
{
    File { name, data: Vec::new() }
}

/// An absent field, or a text one.
pub open spec fn optional_text(f: Option<YamlValue>) -> bool {
    f is None || f matches Some(YamlValue::Text(_))
}

/// A test's entry: a mapping whose stream and arguments names, where
/// present, are text.
pub open spec fn test_entry_ok(v: YamlValue) -> bool {
    &&& v is Hash
    &&& optional_text(field(v, "stdin"@))
    &&& optional_text(field(v, "stdout"@))
    &&& optional_text(field(v, "stderr"@))
    &&& optional_text(field(v, "args"@))
}

/// A style rule's entry names its language and its style file.
pub open spec fn style_entry_ok(v: YamlValue) -> bool {
    text_field(v, "language"@) is Some && text_field(v, "style_file"@) is Some
}

/// The style rules' list, where present, holds well-formed entries.
pub open spec fn styles_ok(f: Option<YamlValue>) -> bool {
    match f {
        None => true,
        Some(YamlValue::List(l)) => forall|i: int| 0 <= i < l@.len() ==> style_entry_ok(#[trigger] l@[i]),
        _ => false,
    }
}

/// The tests' list, where present, holds well-formed entries.
pub open spec fn tests_ok(f: Option<YamlValue>) -> bool {
    match f {
        None => true,
        Some(YamlValue::List(l)) => forall|i: int| 0 <= i < l@.len() ==> test_entry_ok(#[trigger] l@[i]),
        _ => false,
    }
}

/// The build system, where present, is a known name.
pub open spec fn build_system_ok(f: Option<YamlValue>) -> bool {
    match f {
        None => true,
        Some(YamlValue::Text(n)) => exists|b: BuildSystem| build_system_name(b) == n@,
        _ => false,
    }
}

/// The items of a list field; none where it is absent or no list.
pub open spec fn list_items(f: Option<YamlValue>) -> Seq<YamlValue> {
    match f {
        Some(YamlValue::List(l)) => l@,
        _ => seq![],
    }
}

fn optional_file(y: &YamlValue, k: &str) -> (r: Result<Option<File>, String>)
    ensures
        r is Ok <==> optional_text(field(*y, k@)),
        r matches Ok(f) ==> file_name_opt(f) == text_field(*y, k@),
{
    match y.get(k) {
        None => Ok(None),
        Some(YamlValue::Text(n)) => Ok(Some(file_named(n.clone()))),
        Some(_) => {
            let mut m = String::from_str("Not a file name: ");
            m.append(k);
            Err(m)
        },
    }
}

/// Reads the tree of `grading_options.yaml` stored under `problem_root`.
/// It is read exactly when the build system, where given, is a known name,
/// every style rule names its language and style file, and every test is
/// a mapping whose names are text. Arguments files are found in the
/// problem's tests directory.
pub fn options_from_yaml(y: &YamlValue, problem_root: &str) -> (r: Result<OptionsRead, String>)
    ensures
        r is Ok <==> (build_system_ok(field(*y, "build_system"@)) && styles_ok(
            field(*y, "style_checkers"@),
        ) && tests_ok(field(*y, "tests"@))),
        r matches Ok(o) ==> (match field(*y, "limits"@) {
            Some(YamlValue::Hash(_)) => o.options.limits == Some(
                limits_from_yaml_spec(field(*y, "limits"@)->0),
            ),
            _ => o.options.limits is None,
        }),
        r matches Ok(o) ==> (field(*y, "build_system"@) is None ==> o.options.build_system == 0),
        r matches Ok(o) ==> (text_field(*y, "build_system"@) matches Some(n) ==> exists|b: BuildSystem|
            build_system_name(b) == n && o.options.build_system == build_system_code(b)),
        r matches Ok(o) ==> ({
            let l = list_items(field(*y, "style_checkers"@));
            &&& o.options.code_styles@.len() == l.len()
            &&& forall|i: int|
                0 <= i < l.len() ==> Some((#[trigger] o.options.code_styles@[i]).source_file_suffix@)
                    == text_field(l[i], "language"@) && file_name_opt(o.options.code_styles@[i].style_file)
                    == text_field(l[i], "style_file"@)
        }),
        r matches Ok(o) ==> ({
            let l = list_items(field(*y, "tests"@));
            &&& o.options.test_cases@.len() == l.len()
            &&& forall|i: int|
                0 <= i < l.len() ==> {
                    let t = #[trigger] o.options.test_cases@[i];
                    &&& file_name_opt(t.stdin_data) == text_field(l[i], "stdin"@)
                    &&& file_name_opt(t.stdout_reference) == text_field(l[i], "stdout"@)
                    &&& file_name_opt(t.stderr_reference) == text_field(l[i], "stderr"@)
                    &&& t.command_line_arguments@.len() == 0
                }
            &&& forall|k: int|
                0 <= k < o.args_files@.len() ==> {
                    let a = #[trigger] o.args_files@[k];
                    &&& a.0 < l.len()
                    &&& text_field(l[a.0 as int], "args"@) matches Some(name) && a.1@ == join_path(
                        join_path(join_path(problem_root@, "lowerdir"@), "tests"@),
                        name,
                    )
                }
            &&& forall|i: int|
                0 <= i < l.len() && text_field(#[trigger] l[i], "args"@) is Some ==> exists|k: int|
                    0 <= k < o.args_files@.len() && o.args_files@[k].0 == i
        }),
{
    let limits = match y.get("limits") {
        Some(YamlValue::Hash(_)) => Some(limits_from_yaml(y.get("limits").unwrap())),
        _ => None,
    };
    let build_system = match y.get("build_system") {
        None => 0,
        Some(YamlValue::Text(n)) => match build_system_from_name(n.as_str()) {
            Some(b) => b.code(),
            None => {
                let mut m = String::from_str("Unknown build system string value ");
                m.append(n.as_str());
                return Err(m);
            },
        },
        Some(_) => return Err(String::from_str("Unknown build system string value")),
    };
    let mut code_styles: Vec<CodeStyle> = Vec::new();
    match y.get("style_checkers") {
        None => {},
        Some(YamlValue::List(entries)) => {
            let mut i: usize = 0;
            while i < entries.len()
                invariant
                    i <= entries@.len(),
                    field(*y, "style_checkers"@) matches Some(YamlValue::List(l)) && l@ == entries@,
                    code_styles@.len() == i,
                    forall|k: int| 0 <= k < i ==> style_entry_ok(#[trigger] entries@[k]),
                    forall|k: int|
                        0 <= k < i ==> Some((#[trigger] code_styles@[k]).source_file_suffix@)
                            == text_field(entries@[k], "language"@) && file_name_opt(
                            code_styles@[k].style_file,
                        ) == text_field(entries@[k], "style_file"@),
                decreases entries@.len() - i,
            {
                let language = entries[i].get_text("language");
                let style_file = entries[i].get_text("style_file");
                match (language, style_file) {
                    (Some(l), Some(f)) => {
                        code_styles.push(
                            CodeStyle { source_file_suffix: l, style_file: Some(file_named(f)) },
                        );
                    },
                    _ => {
                        proof {
                            assert(!style_entry_ok(entries@[i as int]));
                        }
                        return Err(String::from_str("Malformed style checker entry"));
                    },
                }
                i = i + 1;
            }
        },
        Some(_) => return Err(String::from_str("Malformed style checkers list")),
    }
    let mut test_cases: Vec<TestCase> = Vec::new();
    let mut args_files: Vec<(usize, String)> = Vec::new();
    let lower = path_join(problem_root, "lowerdir");
    let tests_dir = path_join(lower.as_str(), "tests");
    match y.get("tests") {
        None => {},
        Some(YamlValue::List(entries)) => {
            let mut i: usize = 0;
            while i < entries.len()
                invariant
                    i <= entries@.len(),
                    field(*y, "tests"@) matches Some(YamlValue::List(l)) && l@ == entries@,
                    test_cases@.len() == i,
                    tests_dir@ == join_path(join_path(problem_root@, "lowerdir"@), "tests"@),
                    forall|k: int| 0 <= k < i ==> test_entry_ok(#[trigger] entries@[k]),
                    forall|k: int|
                        0 <= k < i ==> {
                            let t = #[trigger] test_cases@[k];
                            &&& file_name_opt(t.stdin_data) == text_field(entries@[k], "stdin"@)
                            &&& file_name_opt(t.stdout_reference) == text_field(entries@[k], "stdout"@)
                            &&& file_name_opt(t.stderr_reference) == text_field(entries@[k], "stderr"@)
                            &&& t.command_line_arguments@.len() == 0
                        },
                    forall|k: int|
                        0 <= k < args_files@.len() ==> {
                            let a = #[trigger] args_files@[k];
                            &&& a.0 < i
                            &&& text_field(entries@[a.0 as int], "args"@) matches Some(name) && a.1@
                                == join_path(tests_dir@, name)
                        },
                    forall|k: int|
                        0 <= k < i && text_field(#[trigger] entries@[k], "args"@) is Some ==> exists|
                            q: int,
                        |
                            0 <= q < args_files@.len() && args_files@[q].0 == k,
                decreases entries@.len() - i,
            {
                let t = &entries[i];
                match t {
                    YamlValue::Hash(_) => {},
                    _ => return Err(String::from_str("Malformed test entry")),
                }
                let stdin_data = optional_file(t, "stdin")?;
                let stdout_reference = optional_file(t, "stdout")?;
                let stderr_reference = optional_file(t, "stderr")?;
                let ghost before = args_files@;
                match t.get("args") {
                    None => {},
                    Some(YamlValue::Text(a)) => {
                        args_files.push((i, path_join(tests_dir.as_str(), a.as_str())));
                        proof {
                            assert(args_files@[before.len() as int].0 == i);
                        }
                    },
                    Some(_) => return Err(String::from_str("Malformed arguments file name")),
                }
                proof {
                    assert forall|k: int|
                        0 <= k <= i && text_field(#[trigger] entries@[k], "args"@) is Some implies exists|
                            q: int,
                        |
                            0 <= q < args_files@.len() && args_files@[q].0 == k by {
                        if k < i {
                            let q = choose|q: int| 0 <= q < before.len() && before[q].0 == k;
                            assert(args_files@[q] == before[q]);
                        } else {
                            assert(args_files@[before.len() as int].0 == i);
                        }
                    }
                }
                test_cases.push(
                    TestCase {
                        command_line_arguments: String::new(),
                        stdin_data,
                        stdout_reference,
                        stderr_reference,
                    },
                );
                i = i + 1;
            }
        },
        Some(_) => return Err(String::from_str("Malformed tests list")),
    }
    Ok(
        OptionsRead {
            options: GradingOptions {
                limits,
                test_cases,
                code_styles,
                executable_target: 0,
                build_system,
                build_properties: LanguageBuildProperties::new(),
            },
            args_files,
        },
    )
}

/// `limits_from_yaml` as a spec function.
pub open spec fn limits_from_yaml_spec(y: YamlValue) -> GradingLimits {
    GradingLimits {
        stack_size_limit_mb: limit_read(y, "stack_size_limit_mb"@),
        memory_max_limit_mb: limit_read(y, "memory_max_limit_mb"@),
        cpu_time_limit_sec: limit_read(y, "cpu_time_limit_sec"@),
        real_time_limit_sec: limit_read(y, "real_time_limit_sec"@),
        proc_count_limit: limit_read(y, "proc_count_limit"@),
        fd_count_limit: limit_read(y, "fd_count_limit"@),
        stdout_size_limit_mb: limit_read(y, "stdout_size_limit_mb"@),
        stderr_size_limit_mb: limit_read(y, "stderr_size_limit_mb"@),
        allow_network: bool_field(y, "allow_network"@) == Some(true),
        new_proc_delay_msec: limit_read(y, "new_proc_delay_msec"@),
    }
}

/// The build system with a configuration name.
pub fn build_system_from_name(name: &str) -> (r: Option<BuildSystem>)
    ensures
        r matches Some(b) ==> build_system_name(b) == name@,
        r is None ==> forall|b: BuildSystem| build_system_name(b) != name@,
{
    let all = [
        BuildSystem::AutodetectBuild,
        BuildSystem::SkipBuild,
        BuildSystem::PythonCheckers,
        BuildSystem::ClangToolchain,
        BuildSystem::MakefileProject,
        BuildSystem::CMakeProject,
        BuildSystem::GoLangProject,
        BuildSystem::JavaPlainProject,
        BuildSystem::MavenProject,
    ];
    let n = String::from_str(name);
    let mut i: usize = 0;
    while i < 9
        invariant
            i <= 9,
            all@ == seq![
                BuildSystem::AutodetectBuild,
                BuildSystem::SkipBuild,
                BuildSystem::PythonCheckers,
                BuildSystem::ClangToolchain,
                BuildSystem::MakefileProject,
                BuildSystem::CMakeProject,
                BuildSystem::GoLangProject,
                BuildSystem::JavaPlainProject,
                BuildSystem::MavenProject,
            ],
            n@ == name@,
            forall|k: int| 0 <= k < i ==> build_system_name(#[trigger] all@[k]) != name@,
        decreases 9 - i,
    {
        let b = all[i];
        if String::from_str(b.as_str_name()) == n {
            return Some(b);
        }
        i = i + 1;
    }
    proof {
        assert forall|b: BuildSystem| build_system_name(b) != name@ by {
            match b {
                BuildSystem::AutodetectBuild => assert(build_system_name(all@[0]) != name@),
                BuildSystem::SkipBuild => assert(build_system_name(all@[1]) != name@),
                BuildSystem::PythonCheckers => assert(build_system_name(all@[2]) != name@),
                BuildSystem::ClangToolchain => assert(build_system_name(all@[3]) != name@),
                BuildSystem::MakefileProject => assert(build_system_name(all@[4]) != name@),
                BuildSystem::CMakeProject => assert(build_system_name(all@[5]) != name@),
                BuildSystem::GoLangProject => assert(build_system_name(all@[6]) != name@),
                BuildSystem::JavaPlainProject => assert(build_system_name(all@[7]) != name@),
                BuildSystem::MavenProject => assert(build_system_name(all@[8]) != name@),
            }
        }
    }
    None
}

} // verus!
