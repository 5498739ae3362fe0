//! Test suites declared inside example scripts: their on-disk form, the
//! metadata directives in their leading comments, and (in later sections of
//! this module) the runner that executes them case by case.

use vstd::prelude::*;

use koto::runtime::{KMap, KValue};

use crate::host::Runtime;
use crate::text::{chars_of, concat2};
use crate::vm::{kmap_clone, kvalue_from_map, meta_entries, now_millis, MetaEntry, MetaEntryKind};

verus! {

/// One test-suite file belonging to an example.
pub struct ExampleTestSuite {
    /// The file stem of the suite's script file.
    pub id: String,
    /// Display name: the `Title:` directive, or the id when absent.
    pub name: String,
    /// The `Description:` directive, when present.
    pub description: Option<String>,
    /// Where the suite's script lives on disk.
    pub path: String,
    /// The suite's script text.
    pub script: String,
}

/// Mathematical value of an [`ExampleTestSuite`].
pub struct SuiteModel {
    pub id: Seq<char>,
    pub name: Seq<char>,
    pub description: Option<Seq<char>>,
    pub path: Seq<char>,
    pub script: Seq<char>,
}

/// The mathematical value of an optional string.
pub open spec fn opt_text(o: Option<String>) -> Option<Seq<char>> {
    match o {
        Some(s) => Some(s@),
        None => None,
    }
}

impl View for ExampleTestSuite {
    type V = SuiteModel;

    open spec fn view(&self) -> SuiteModel {
        SuiteModel {
            id: self.id@,
            name: self.name@,
            description: opt_text(self.description),
            path: self.path@,
            script: self.script@,
        }
    }
}

/// Clones an optional string, keeping its value.
pub fn clone_opt_string(o: &Option<String>) -> (r: Option<String>)
    ensures
        opt_text(r) == opt_text(*o),
{
    match o {
        Some(s) => Some(s.clone()),
        None => None,
    }
}

impl Clone for ExampleTestSuite {
    fn clone(&self) -> (r: Self)
        ensures
            r@ == self@,
    {
        ExampleTestSuite {
            id: self.id.clone(),
            name: self.name.clone(),
            description: clone_opt_string(&self.description),
            path: self.path.clone(),
            script: self.script.clone(),
        }
    }
}

/// The mathematical values of a sequence of suites.
pub open spec fn suites_model(s: Seq<ExampleTestSuite>) -> Seq<SuiteModel> {
    s.map_values(|t: ExampleTestSuite| t@)
}

/// Clones a suite list, keeping every suite's value.
pub fn clone_suites(v: &Vec<ExampleTestSuite>) -> (r: Vec<ExampleTestSuite>)
    ensures
        suites_model(r@) == suites_model(v@),
{
    let mut r: Vec<ExampleTestSuite> = Vec::new();
    let mut i: usize = 0;
    while i < v.len()
        invariant
            i <= v@.len(),
            r@.len() == i as int,
            forall|j: int| 0 <= j < i as int ==> r@[j]@ == v@[j]@,
        decreases v@.len() - i,
    {
        r.push(v[i].clone());
        i = i + 1;
    }
    proof {
        assert(suites_model(r@) =~= suites_model(v@));
    }
    r
}


/// Byte order on names: character-by-character by code point, a prefix
/// before its extensions.
pub open spec fn lex_leq(a: Seq<char>, b: Seq<char>) -> bool
    decreases a.len(),
{
    if a.len() == 0 {
        true
    } else if b.len() == 0 {
        false
    } else if (a[0] as u32) != (b[0] as u32) {
        (a[0] as u32) < (b[0] as u32)
    } else {
        lex_leq(a.drop_first(), b.drop_first())
    }
}

fn chars_leq_from(a: &Vec<char>, b: &Vec<char>, i: usize) -> (r: bool)
    requires
        i <= a@.len(),
        i <= b@.len(),
    ensures
        r == lex_leq(a@.skip(i as int), b@.skip(i as int)),
    decreases a@.len() - i,
{
    let ghost sa = a@.skip(i as int);
    let ghost sb = b@.skip(i as int);
    if i == a.len() {
        proof {
            assert(sa =~= Seq::<char>::empty());
        }
        true
    } else if i == b.len() {
        proof {
            assert(sb =~= Seq::<char>::empty());
        }
        false
    } else if (a[i] as u32) != (b[i] as u32) {
        (a[i] as u32) < (b[i] as u32)
    } else {
        let r = chars_leq_from(a, b, i + 1);
        proof {
            assert(sa.drop_first() =~= a@.skip(i as int + 1));
            assert(sb.drop_first() =~= b@.skip(i as int + 1));
        }
        r
    }
}

/// Whether `a` comes no later than `b` in name order.
pub fn chars_leq(a: &Vec<char>, b: &Vec<char>) -> (r: bool)
    ensures
        r == lex_leq(a@, b@),
{
    let r = chars_leq_from(a, b, 0);
    proof {
        assert(a@.skip(0) =~= a@);
        assert(b@.skip(0) =~= b@);
    }
    r
}

/// A sorted suite list with one more suite: the new suite goes after every
/// suite whose name comes no later than its own.
pub open spec fn insert_by_name_spec(s: Seq<SuiteModel>, x: SuiteModel) -> Seq<SuiteModel>
    decreases s.len(),
{
    if s.len() == 0 {
        seq![x]
    } else if lex_leq(s[0].name, x.name) {
        seq![s[0]] + insert_by_name_spec(s.drop_first(), x)
    } else {
        seq![x] + s
    }
}

/// The suite list sorted by display name: a stable insertion sort, suites of
/// equal name keeping their relative order.
pub open spec fn sort_by_name_spec(s: Seq<SuiteModel>) -> Seq<SuiteModel>
    decreases s.len(),
{
    if s.len() == 0 {
        s
    } else {
        insert_by_name_spec(sort_by_name_spec(s.drop_last()), s.last())
    }
}

fn insert_by_name(sorted: Vec<ExampleTestSuite>, x: ExampleTestSuite) -> (r: Vec<
    ExampleTestSuite,
>)
    ensures
        suites_model(r@) == insert_by_name_spec(suites_model(sorted@), x@),
    decreases sorted@.len(),
{
    let ghost sm = suites_model(sorted@);
    if sorted.len() == 0 {
        let mut r: Vec<ExampleTestSuite> = Vec::new();
        r.push(x);
        proof {
            assert(suites_model(r@) =~= insert_by_name_spec(sm, x@));
        }
        r
    } else {
        let x_name = chars_of(x.name.as_str());
        let head_name = chars_of(sorted[0].name.as_str());
        if chars_leq(&head_name, &x_name) {
            let mut rest = sorted;
            let head = rest.remove(0);
            proof {
                assert(suites_model(rest@) =~= sm.drop_first());
            }
            let tail = insert_by_name(rest, x);
            let mut r = tail;
            r.insert(0, head);
            proof {
                assert(suites_model(r@) =~= seq![head@] + insert_by_name_spec(
                    sm.drop_first(),
                    x@,
                ));
                assert(suites_model(r@) =~= insert_by_name_spec(sm, x@));
            }
            r
        } else {
            let mut r = sorted;
            r.insert(0, x);
            proof {
                assert(suites_model(r@) =~= seq![x@] + sm);
                assert(suites_model(r@) =~= insert_by_name_spec(sm, x@));
            }
            r
        }
    }
}

/// Sorts suites by display name, stably.
pub fn sort_suites_by_name(suites: Vec<ExampleTestSuite>) -> (r: Vec<ExampleTestSuite>)
    ensures
        suites_model(r@) == sort_by_name_spec(suites_model(suites@)),
    decreases suites@.len(),
{
    let ghost sm = suites_model(suites@);
    let mut rest = suites;
    match rest.pop() {
        Some(last) => {
            proof {
                assert(suites_model(rest@) =~= sm.drop_last());
                assert(last@ == sm.last());
            }
            let sorted = sort_suites_by_name(rest);
            insert_by_name(sorted, last)
        },
        None => {
            proof {
                assert(suites_model(rest@) =~= sort_by_name_spec(sm));
            }
            rest
        },
    }
}

/// Suites in non-descending display-name order.
pub open spec fn suites_sorted_by_name(s: Seq<SuiteModel>) -> bool {
    forall|i: int, j: int|
        0 <= i < j < s.len() ==> lex_leq((#[trigger] s[i]).name, (#[trigger] s[j]).name)
}

/// Name order is total: of any two names, one comes no later.
pub proof fn lemma_lex_leq_total(a: Seq<char>, b: Seq<char>)
    ensures
        lex_leq(a, b) || lex_leq(b, a),
    decreases a.len(),
{
    if a.len() == 0 {
    } else if b.len() == 0 {
    } else if (a[0] as u32) != (b[0] as u32) {
    } else {
        lemma_lex_leq_total(a.drop_first(), b.drop_first());
    }
}

/// Name order is transitive.
pub proof fn lemma_lex_leq_trans(a: Seq<char>, b: Seq<char>, c: Seq<char>)
    requires
        lex_leq(a, b),
        lex_leq(b, c),
    ensures
        lex_leq(a, c),
    decreases a.len(),
{
    if a.len() == 0 {
    } else if c.len() == 0 {
        assert(b.len() > 0);
    } else {
        assert(b.len() > 0);
        if (a[0] as u32) == (b[0] as u32) && (b[0] as u32) == (c[0] as u32) {
            lemma_lex_leq_trans(a.drop_first(), b.drop_first(), c.drop_first());
        }
    }
}

proof fn lemma_insert_by_name_sorted(s: Seq<SuiteModel>, x: SuiteModel)
    requires
        suites_sorted_by_name(s),
    ensures
        suites_sorted_by_name(insert_by_name_spec(s, x)),
        forall|k: int|
            0 <= k < insert_by_name_spec(s, x).len() ==> (#[trigger] insert_by_name_spec(s, x)[k])
                == x || s.contains(insert_by_name_spec(s, x)[k]),
    decreases s.len(),
{
    let r = insert_by_name_spec(s, x);
    if s.len() == 0 {
    } else {
        let rest = s.drop_first();
        assert(forall|i: int| 0 <= i < rest.len() ==> rest[i] == s[i + 1]);
        assert(suites_sorted_by_name(rest));
        if lex_leq(s[0].name, x.name) {
            lemma_insert_by_name_sorted(rest, x);
            let t = insert_by_name_spec(rest, x);
            assert(r =~= seq![s[0]] + t);
            assert forall|k: int| 0 <= k < r.len() implies r[k] == x || s.contains(r[k]) by {
                if k == 0 {
                    assert(s[0] == s[0]);
                } else {
                    assert(r[k] == t[k - 1]);
                    if t[k - 1] == x {
                    } else {
                        let j = choose|j: int| 0 <= j < rest.len() && rest[j] == t[k - 1];
                        assert(s[j + 1] == t[k - 1]);
                    }
                }
            }
            assert forall|i: int, j: int|
                0 <= i < j < r.len() implies lex_leq((#[trigger] r[i]).name, (#[trigger] r[j]).name) by {
                if i == 0 {
                    if r[j] == x {
                    } else {
                        let m = choose|m: int| 0 <= m < s.len() && s[m] == r[j];
                        if m == 0 {
                            lemma_lex_leq_total(s[0].name, s[0].name);
                        }
                    }
                } else {
                    assert(r[i] == t[i - 1]);
                    assert(r[j] == t[j - 1]);
                }
            }
        } else {
            lemma_lex_leq_total(s[0].name, x.name);
            assert(r =~= seq![x] + s);
            assert forall|i: int, j: int|
                0 <= i < j < r.len() implies lex_leq((#[trigger] r[i]).name, (#[trigger] r[j]).name) by {
                if i == 0 {
                    assert(r[j] == s[j - 1]);
                    if j - 1 > 0 {
                        lemma_lex_leq_trans(x.name, s[0].name, s[j - 1].name);
                    }
                } else {
                    assert(r[i] == s[i - 1]);
                    assert(r[j] == s[j - 1]);
                }
            }
        }
    }
}

/// Law: the suite list an example is built with is sorted by display name.
pub proof fn lemma_sort_by_name_sorted(s: Seq<SuiteModel>)
    ensures
        suites_sorted_by_name(sort_by_name_spec(s)),
    decreases s.len(),
{
    if s.len() == 0 {
    } else {
        lemma_sort_by_name_sorted(s.drop_last());
        lemma_insert_by_name_sorted(sort_by_name_spec(s.drop_last()), s.last());
    }
}

/// The directive value when a trimmed comment line carries the given key.
pub open spec fn directive_value(content: Seq<char>, key: Seq<char>) -> Option<Seq<char>> {
    if crate::text::is_prefix_of(key, content) {
        Some(crate::text::trim_spec(content.skip(key.len() as int)))
    } else {
        None
    }
}

/// The `Title:` and `Description:` directives of a suite script's leading
/// comment lines: blank lines are skipped, scanning stops at the first
/// non-comment line, later directives overwrite earlier ones.
pub open spec fn scan_directives(
    lines: Seq<Seq<char>>,
    name: Option<Seq<char>>,
    description: Option<Seq<char>>,
) -> (Option<Seq<char>>, Option<Seq<char>>)
    decreases lines.len(),
{
    if lines.len() == 0 {
        (name, description)
    } else {
        let t = crate::text::trim_spec(lines[0]);
        if t.len() == 0 {
            scan_directives(lines.drop_first(), name, description)
        } else if t[0] != '#' {
            (name, description)
        } else {
            let content = crate::text::trim_spec(crate::text::drop_leading_spec(t, '#'));
            match directive_value(content, "Title:"@) {
                Some(v) => scan_directives(lines.drop_first(), Some(v), description),
                None => match directive_value(content, "Description:"@) {
                    Some(v) => scan_directives(lines.drop_first(), name, Some(v)),
                    None => scan_directives(lines.drop_first(), name, description),
                },
            }
        }
    }
}

/// The directives of a whole script.
pub open spec fn suite_directives(script: Seq<char>) -> (Option<Seq<char>>, Option<Seq<char>>) {
    scan_directives(crate::text::split_spec(script, '\n'), None, None)
}

fn scan_directives_exec(
    lines: &Vec<Vec<char>>,
    i: usize,
    name: Option<String>,
    description: Option<String>,
) -> (r: (Option<String>, Option<String>))
    requires
        i <= lines@.len(),
    ensures
        opt_text(r.0) == scan_directives(
            lines.deep_view().skip(i as int),
            opt_text(name),
            opt_text(description),
        ).0,
        opt_text(r.1) == scan_directives(
            lines.deep_view().skip(i as int),
            opt_text(name),
            opt_text(description),
        ).1,
    decreases lines@.len() - i,
{
    broadcast use vstd::string::group_string_axioms;

    let ghost suffix = lines.deep_view().skip(i as int);
    if i == lines.len() {
        proof {
            assert(suffix =~= Seq::<Seq<char>>::empty());
        }
        (name, description)
    } else {
        proof {
            assert(suffix[0] =~= lines@[i as int]@);
            assert(suffix.drop_first() =~= lines.deep_view().skip(i as int + 1));
        }
        let t = crate::text::trim_vec(&lines[i]);
        if t.len() == 0 {
            scan_directives_exec(lines, i + 1, name, description)
        } else if t[0] != '#' {
            (name, description)
        } else {
            let bare = crate::text::drop_leading(&t, '#');
            let content = crate::text::trim_vec(&bare);
            proof {
                reveal_strlit("Title:");
                reveal_strlit("Description:");
            }
            if crate::text::starts_with_chars(&content, "Title:") {
                let value = crate::text::subrange_vec(&content, 6, content.len());
                proof {
                    assert(value@ =~= content@.skip("Title:"@.len() as int));
                }
                let trimmed = crate::text::trim_vec(&value);
                scan_directives_exec(
                    lines,
                    i + 1,
                    Some(crate::text::string_from_chars(&trimmed)),
                    description,
                )
            } else if crate::text::starts_with_chars(&content, "Description:") {
                let value = crate::text::subrange_vec(&content, 12, content.len());
                proof {
                    assert(value@ =~= content@.skip("Description:"@.len() as int));
                }
                let trimmed = crate::text::trim_vec(&value);
                scan_directives_exec(
                    lines,
                    i + 1,
                    name,
                    Some(crate::text::string_from_chars(&trimmed)),
                )
            } else {
                scan_directives_exec(lines, i + 1, name, description)
            }
        }
    }
}

/// Parses the `Title:` and `Description:` directives of a suite script's
/// leading comment block; the name falls back to the suite id when no
/// `Title:` directive is present.
pub fn parse_suite_directives(script: &str, fallback_id: &str) -> (r: (String, Option<String>))
    ensures
        match suite_directives(script@).0 {
            Some(n) => r.0@ == n,
            None => r.0@ == fallback_id@,
        },
        opt_text(r.1) == suite_directives(script@).1,
{
    let chars = chars_of(script);
    let lines = crate::text::split_chars(&chars, '\n');
    let (name, description) = scan_directives_exec(&lines, 0, None, None);
    proof {
        assert(lines.deep_view().skip(0) =~= lines.deep_view());
    }
    match name {
        Some(n) => (n, description),
        None => (fallback_id.to_owned(), description),
    }
}

/// The suite record that one scanned file denotes: id and script verbatim,
/// name and description from the leading comment directives, the name
/// falling back to the file stem.
pub open spec fn suite_of_file(stem: Seq<char>, path: Seq<char>, script: Seq<char>) -> SuiteModel {
    SuiteModel {
        id: stem,
        name: match suite_directives(script).0 {
            Some(n) => n,
            None => stem,
        },
        description: suite_directives(script).1,
        path: path,
        script: script,
    }
}

/// Builds one suite record from its file stem, path and script text.
pub fn build_suite(stem: &str, path: &str, script: String) -> (r: ExampleTestSuite)
    ensures
        r@ == suite_of_file(stem@, path@, script@),
{
    let (name, description) = parse_suite_directives(script.as_str(), stem);
    ExampleTestSuite { id: stem.to_owned(), name, description, path: path.to_owned(), script }
}

/// One suite file as found on disk: the file stem, the full path, and the
/// file contents.
pub struct SuiteFile {
    pub stem: String,
    pub path: String,
    pub script: String,
}

impl View for SuiteFile {
    type V = SuiteModel;

    open spec fn view(&self) -> SuiteModel {
        suite_of_file(self.stem@, self.path@, self.script@)
    }
}

/// The suite records that a list of scanned files denotes, in file order.
pub open spec fn files_model(s: Seq<SuiteFile>) -> Seq<SuiteModel> {
    s.map_values(|f: SuiteFile| f@)
}

/// Builds an example's suite list from its scanned suite files: one record
/// per file, sorted by display name.
pub fn build_suites(files: Vec<SuiteFile>) -> (r: Vec<ExampleTestSuite>)
    ensures
        suites_model(r@) == sort_by_name_spec(files_model(files@)),
{
    let ghost fm = files_model(files@);
    let mut built: Vec<ExampleTestSuite> = Vec::new();
    let mut i: usize = 0;
    let n = files.len();
    let mut remaining = files;
    proof {
        assert(remaining@.map_values(|f: SuiteFile| f@) =~= fm.skip(0));
        assert(suites_model(built@) =~= fm.take(0));
    }
    while i < n
        invariant
            i <= n,
            n == fm.len(),
            remaining@.len() == n - i,
            remaining@.map_values(|f: SuiteFile| f@) == fm.skip(i as int),
            suites_model(built@) == fm.take(i as int),
        decreases n - i,
    {
        let ghost pre = remaining@;
        let ghost rm = remaining@.map_values(|f: SuiteFile| f@);
        let f = remaining.remove(0);
        proof {
            assert(rm[0] == pre[0]@);
            assert(f@ == rm[0]);
            assert(rm[0] == fm[i as int]);
            assert(remaining@.map_values(|g: SuiteFile| g@) =~= rm.drop_first());
            assert(rm.drop_first() =~= fm.skip(i as int + 1));
        }
        let ghost fv = f@;
        let SuiteFile { stem, path, script } = f;
        let suite = build_suite(stem.as_str(), path.as_str(), script);
        proof {
            assert(suite@ == fv);
        }
        let ghost prev = suites_model(built@);
        built.push(suite);
        i = i + 1;
        proof {
            assert(suites_model(built@) =~= prev.push(fv));
            assert(fm.take(i as int) =~= prev.push(fm[i as int - 1]));
        }
    }
    proof {
        assert(fm.take(n as int) =~= fm);
    }
    sort_suites_by_name(built)
}


/// Whether one test case passed or failed.
#[derive(Clone, Copy, Debug, PartialEq, Eq, Structural)]
pub enum TestStatus {
    Passed,
    Failed,
}

/// The outcome of one test case.
#[derive(Debug)]
pub struct TestCaseResult {
    pub name: String,
    pub status: TestStatus,
    /// Wall-clock time of the case's full pre-hook, body, post-hook
    /// sequence, in milliseconds.
    pub duration_ms: u64,
    /// What the case printed, drained right after the sequence.
    pub stdout: String,
    pub stderr: String,
    /// The failure message; present exactly when the case failed.
    pub error: Option<String>,
}

/// The outcome of one suite run.
#[derive(Debug)]
pub struct TestSuiteResult {
    pub suite_id: String,
    pub suite_name: String,
    pub description: Option<String>,
    pub path: String,
    /// What the setup pass - the one run of the suite script - printed.
    pub setup_stdout: String,
    pub setup_stderr: String,
    pub cases: Vec<TestCaseResult>,
    /// The sum of the case durations - not the wall clock of the whole run,
    /// which also includes setup.
    pub total_duration_ms: u64,
    /// Whether every case passed.
    pub passed: bool,
}

/// An error that aborts one suite run; case failures are recorded in the
/// results instead and never surface here.
#[derive(Debug)]
pub enum HarnessError {
    /// The setup run of the suite script failed, with the interpreter's
    /// diagnostic text.
    SuiteEvaluation { suite_name: String, message: String },
    /// The script exported no value carrying test declarations.
    NoTestsDeclared { suite_name: String },
}

impl HarnessError {
    /// A human-readable description of the error.
    pub fn message(&self) -> (r: String)
        ensures
            match self {
                HarnessError::SuiteEvaluation { suite_name, message } => r@
                    == "failed to evaluate test suite "@ + suite_name@ + ": "@ + message@,
                HarnessError::NoTestsDeclared { suite_name } => r@
                    == "no test declarations were exported by "@ + suite_name@,
            },
    {
        match self {
            HarnessError::SuiteEvaluation { suite_name, message } => {
                let head = concat2("failed to evaluate test suite ", suite_name.as_str());
                let r = concat2(head.as_str(), concat2(": ", message.as_str()).as_str());
                proof {
                    assert(r@ =~= "failed to evaluate test suite "@ + suite_name@ + ": "@
                        + message@);
                }
                r
            },
            HarnessError::NoTestsDeclared { suite_name } => {
                concat2("no test declarations were exported by ", suite_name.as_str())
            },
        }
    }
}

/// Whether every case passed.
pub open spec fn all_cases_passed(cases: Seq<TestCaseResult>) -> bool {
    forall|i: int| 0 <= i < cases.len() ==> (#[trigger] cases[i]).status == TestStatus::Passed
}

/// The sum of the case durations, saturating at the largest value.
pub open spec fn sum_durations_sat(cases: Seq<TestCaseResult>) -> u64
    decreases cases.len(),
{
    if cases.len() == 0 {
        0
    } else {
        let rest = sum_durations_sat(cases.drop_last());
        if rest + cases.last().duration_ms > u64::MAX {
            u64::MAX
        } else {
            (rest + cases.last().duration_ms) as u64
        }
    }
}

/// Settles one case from its stage failures: a pre-hook failure decides the
/// case with a `pre-test failed` prefix, otherwise a body failure decides it
/// with the plain message, otherwise a post-hook failure decides it with a
/// `post-test failed` prefix; with no failure the case passed and carries no
/// error.
pub fn case_verdict(
    pre_failure: Option<String>,
    body_failure: Option<String>,
    post_failure: Option<String>,
) -> (r: (TestStatus, Option<String>))
    ensures
        match pre_failure {
            Some(m) => r.0 == TestStatus::Failed && (r.1 matches Some(e) && e@ == "pre-test failed: "@
                + m@),
            None => match body_failure {
                Some(m) => r.0 == TestStatus::Failed && (r.1 matches Some(e) && e@ == m@),
                None => match post_failure {
                    Some(m) => r.0 == TestStatus::Failed && (r.1 matches Some(e) && e@
                        == "post-test failed: "@ + m@),
                    None => r.0 == TestStatus::Passed && r.1 is None,
                },
            },
        },
        (r.0 == TestStatus::Passed) <==> (r.1 is None),
{
    match pre_failure {
        Some(m) => (TestStatus::Failed, Some(concat2("pre-test failed: ", m.as_str()))),
        None => match body_failure {
            Some(m) => (TestStatus::Failed, Some(m)),
            None => match post_failure {
                Some(m) => (TestStatus::Failed, Some(concat2("post-test failed: ", m.as_str()))),
                None => (TestStatus::Passed, None),
            },
        },
    }
}

/// Runs one case: clears the capture buffers, runs the pre-hook, the body
/// and the post-hook with the registry value as implicit receiver, each
/// stage only when no earlier stage has failed - a failing pre-hook skips
/// the body, and the post-hook never runs after a failure - then drains the
/// buffers into the result. The host's configuration and bindings are left
/// untouched.
fn run_case(
    runtime: &mut Runtime,
    self_arg: &KValue,
    pre_test: &Option<KValue>,
    post_test: &Option<KValue>,
    name: String,
    test_fn: &KValue,
) -> (r: TestCaseResult)
    ensures
        final(runtime)@ == old(runtime)@,
        r.name == name,
        (r.status == TestStatus::Passed) <==> (r.error is None),
{
    runtime.clear_output();
    let started = now_millis();
    let pre_failure: Option<String> = match pre_test {
        Some(hook) => match runtime.call_instance(self_arg, hook) {
            Ok(_) => None,
            Err(message) => Some(message),
        },
        None => None,
    };
    let body_failure: Option<String> = if pre_failure.is_none() {
        match runtime.call_instance(self_arg, test_fn) {
            Ok(_) => None,
            Err(message) => Some(message),
        }
    } else {
        None
    };
    let post_failure: Option<String> = if pre_failure.is_none() && body_failure.is_none() {
        match post_test {
            Some(hook) => match runtime.call_instance(self_arg, hook) {
                Ok(_) => None,
                Err(message) => Some(message),
            },
            None => None,
        }
    } else {
        None
    };
    let (status, error) = case_verdict(pre_failure, body_failure, post_failure);
    let ended = now_millis();
    let duration_ms = if ended >= started {
        ended - started
    } else {
        0
    };
    let stdout = runtime.take_stdout();
    let stderr = runtime.take_stderr();
    TestCaseResult { name, status, duration_ms, stdout, stderr, error }
}

/// Whether a map's meta entries declare at least one test case.
fn map_declares_tests(m: &KMap) -> bool {
    let entries = meta_entries(m);
    let mut i: usize = 0;
    while i < entries.len()
        decreases entries@.len() - i,
    {
        if let MetaEntryKind::Test(_) = &entries[i].kind {
            return true;
        }
        i = i + 1;
    }
    false
}

/// The first exported map value that declares tests, with its export name.
/// Export enumeration follows declaration order in the script, so the choice
/// is deterministic when several qualify.
fn find_test_registry(exports: &Vec<(String, KValue)>) -> (r: Option<(String, KMap)>)
    ensures
        r matches Some(found) ==> exists|i: int|
            0 <= i < exports@.len() && (#[trigger] exports@[i]).0@ == found.0@,
{
    let mut i: usize = 0;
    while i < exports.len()
        invariant
            i <= exports@.len(),
        decreases exports@.len() - i,
    {
        match crate::vm::kvalue_as_map(&exports[i].1) {
            Some(m) => {
                if map_declares_tests(&m) {
                    let name = exports[i].0.clone();
                    proof {
                        assert(exports@[i as int].0@ == name@);
                    }
                    return Some((name, m));
                }
            },
            None => {},
        }
        i = i + 1;
    }
    None
}

/// The named cases a registry's meta entries declare, in declaration order.
pub open spec fn declared_cases(entries: Seq<MetaEntry>) -> Seq<(Seq<char>, KValue)>
    decreases entries.len(),
{
    if entries.len() == 0 {
        Seq::empty()
    } else {
        declared_cases(entries.drop_last()) + (match entries.last().kind {
            MetaEntryKind::Test(name) => seq![(name@, entries.last().value)],
            _ => Seq::<(Seq<char>, KValue)>::empty(),
        })
    }
}

/// The first pre-test hook among the entries, if any.
pub open spec fn first_pre_hook(entries: Seq<MetaEntry>) -> Option<KValue>
    decreases entries.len(),
{
    if entries.len() == 0 {
        None
    } else {
        match first_pre_hook(entries.drop_last()) {
            Some(hook) => Some(hook),
            None => {
                if entries.last().kind is PreTest {
                    Some(entries.last().value)
                } else {
                    None
                }
            },
        }
    }
}

/// The first post-test hook among the entries, if any.
pub open spec fn first_post_hook(entries: Seq<MetaEntry>) -> Option<KValue>
    decreases entries.len(),
{
    if entries.len() == 0 {
        None
    } else {
        match first_post_hook(entries.drop_last()) {
            Some(hook) => Some(hook),
            None => {
                if entries.last().kind is PostTest {
                    Some(entries.last().value)
                } else {
                    None
                }
            },
        }
    }
}

/// The mathematical value of a named-case list.
pub open spec fn cases_model(s: Seq<(String, KValue)>) -> Seq<(Seq<char>, KValue)> {
    s.map_values(|p: (String, KValue)| (p.0@, p.1))
}

/// Splits a registry's meta entries into the first pre-hook, the first
/// post-hook, and the named cases: one per `Test` entry, with its name and
/// value, in declaration order.
fn hooks_and_cases(entries: Vec<MetaEntry>) -> (r: (Option<KValue>, Option<KValue>, Vec<(
    String,
    KValue,
)>))
    ensures
        r.0 == first_pre_hook(entries@),
        r.1 == first_post_hook(entries@),
        cases_model(r.2@) == declared_cases(entries@),
{
    let ghost all = entries@;
    let mut pre_test: Option<KValue> = None;
    let mut post_test: Option<KValue> = None;
    let mut cases: Vec<(String, KValue)> = Vec::new();
    let n = entries.len();
    let mut remaining = entries;
    let mut i: usize = 0;
    proof {
        assert(all.take(0) =~= Seq::<MetaEntry>::empty());
        assert(cases_model(cases@) =~= declared_cases(all.take(0)));
    }
    while i < n
        invariant
            i <= n,
            n == all.len(),
            remaining@ == all.skip(i as int),
            pre_test == first_pre_hook(all.take(i as int)),
            post_test == first_post_hook(all.take(i as int)),
            cases_model(cases@) == declared_cases(all.take(i as int)),
        decreases n - i,
    {
        let ghost pre_rem = remaining@;
        let ghost prefix_cases = cases_model(cases@);
        let entry = remaining.remove(0);
        let ghost ent = entry;
        proof {
            assert(ent == all[i as int]);
            assert(pre_rem.drop_first() =~= all.skip(i as int + 1));
            assert(all.take(i as int + 1).drop_last() =~= all.take(i as int));
            assert(all.take(i as int + 1).last() == all[i as int]);
        }
        match entry.kind {
            MetaEntryKind::Test(case_name) => {
                cases.push((case_name, entry.value));
                proof {
                    assert(cases_model(cases@) =~= prefix_cases.push((ent.kind->Test_0@, ent.value)));
                    assert(declared_cases(all.take(i as int + 1)) =~= prefix_cases.push(
                        (ent.kind->Test_0@, ent.value),
                    ));
                }
            },
            MetaEntryKind::PreTest => {
                if pre_test.is_none() {
                    pre_test = Some(entry.value);
                }
            },
            MetaEntryKind::PostTest => {
                if post_test.is_none() {
                    post_test = Some(entry.value);
                }
            },
            MetaEntryKind::Other => {},
        }
        i = i + 1;
        proof {
            assert(cases_model(cases@) =~= declared_cases(all.take(i as int)));
        }
    }
    proof {
        assert(all.take(n as int) =~= all);
    }
    (pre_test, post_test, cases)
}

/// The pass flag and saturating duration total of a case list.
fn summarize_cases(cases: &Vec<TestCaseResult>) -> (r: (bool, u64))
    ensures
        r.0 == all_cases_passed(cases@),
        r.1 == sum_durations_sat(cases@),
{
    let mut passed = true;
    let mut total: u64 = 0;
    let mut i: usize = 0;
    while i < cases.len()
        invariant
            i <= cases@.len(),
            passed == all_cases_passed(cases@.take(i as int)),
            total == sum_durations_sat(cases@.take(i as int)),
        decreases cases@.len() - i,
    {
        let ghost prefix = cases@.take(i as int);
        if !(cases[i].status == TestStatus::Passed) {
            passed = false;
        }
        let d = cases[i].duration_ms;
        total = if total > u64::MAX - d {
            u64::MAX
        } else {
            total + d
        };
        i = i + 1;
        proof {
            assert(cases@.take(i as int).drop_last() =~= prefix);
            assert(cases@.take(i as int).last() == cases@[i - 1]);
            assert(all_cases_passed(cases@.take(i as int)) == (all_cases_passed(prefix)
                && cases@[i - 1].status == TestStatus::Passed)) by {
                if all_cases_passed(prefix) && cases@[i - 1].status == TestStatus::Passed {
                    assert forall|j: int| 0 <= j < i as int implies (#[trigger] cases@.take(
                        i as int,
                    )[j]).status == TestStatus::Passed by {
                        if j < i - 1 {
                            assert(cases@.take(i as int)[j] == prefix[j]);
                        }
                    }
                }
            }
        }
    }
    proof {
        assert(cases@.take(cases@.len() as int) =~= cases@);
    }
    (passed, total)
}

/// Runs one suite: a fresh, independent host is built so that suite runs
/// interfere neither with interactive execution nor with each other; the
/// suite script runs once as setup, the exported test registry is found, and
/// every declared case runs in declaration order. A missing registry is the
/// `NoTestsDeclared` error; a failing setup run is `SuiteEvaluation`;
/// individual case failures land in the per-case results.
pub fn run_suite(suite: &ExampleTestSuite) -> (r: Result<TestSuiteResult, HarnessError>)
    ensures
        r matches Err(e) ==> match e {
            HarnessError::SuiteEvaluation { suite_name, message } => suite_name@ == suite@.name,
            HarnessError::NoTestsDeclared { suite_name } => suite_name@ == suite@.name,
        },
        r matches Ok(res) ==> {
            &&& res.suite_id == suite.id
            &&& res.suite_name == suite.name
            &&& opt_text(res.description) == opt_text(suite.description)
            &&& res.path == suite.path
            &&& res.passed == all_cases_passed(res.cases@)
            &&& res.total_duration_ms == sum_durations_sat(res.cases@)
            &&& forall|i: int|
                0 <= i < res.cases@.len() ==> (((#[trigger] res.cases@[i]).status
                    == TestStatus::Passed) <==> (res.cases@[i].error is None))
        },
{
    let mut runtime = match Runtime::new() {
        Ok(rt) => rt,
        Err(_) => vstd::pervasive::unreached(),
    };
    let execution = match runtime.execute_script(suite.script.as_str()) {
        Ok(execution) => execution,
        Err(error) => {
            return Err(
                HarnessError::SuiteEvaluation {
                    suite_name: suite.name.clone(),
                    message: error.message(),
                },
            );
        },
    };
    let exports = runtime.exports();
    let (_registry_name, tests_map) = match find_test_registry(&exports) {
        Some(found) => found,
        None => {
            return Err(HarnessError::NoTestsDeclared { suite_name: suite.name.clone() });
        },
    };
    let entries = meta_entries(&tests_map);
    let (pre_test, post_test, declared) = hooks_and_cases(entries);
    let self_arg = kvalue_from_map(kmap_clone(&tests_map));
    let mut cases: Vec<TestCaseResult> = Vec::new();
    let case_count = declared.len();
    let mut remaining = declared;
    let mut i: usize = 0;
    while i < case_count
        invariant
            remaining@.len() + i == case_count,
            forall|j: int|
                0 <= j < cases@.len() ==> (((#[trigger] cases@[j]).status == TestStatus::Passed)
                    <==> (cases@[j].error is None)),
        decreases case_count - i,
    {
        let (case_name, test_fn) = remaining.remove(0);
        let outcome = run_case(&mut runtime, &self_arg, &pre_test, &post_test, case_name, &test_fn);
        cases.push(outcome);
        i = i + 1;
    }
    let (passed, total_duration_ms) = summarize_cases(&cases);
    Ok(
        TestSuiteResult {
            suite_id: suite.id.clone(),
            suite_name: suite.name.clone(),
            description: clone_opt_string(&suite.description),
            path: suite.path.clone(),
            setup_stdout: execution.stdout,
            setup_stderr: execution.stderr,
            cases,
            total_duration_ms,
            passed,
        },
    )
}

/// Runs suites independently and in order; a failing case does not abort the
/// remaining suites, only a harness error does.
pub fn run_suites(suites: &Vec<ExampleTestSuite>) -> (r: Result<Vec<TestSuiteResult>, HarnessError>)
    ensures
        r matches Ok(results) ==> results@.len() == suites@.len(),
{
    let mut results: Vec<TestSuiteResult> = Vec::new();
    let mut i: usize = 0;
    while i < suites.len()
        invariant
            i <= suites@.len(),
            results@.len() == i as int,
        decreases suites@.len() - i,
    {
        match run_suite(&suites[i]) {
            Ok(result) => {
                results.push(result);
            },
            Err(error) => {
                return Err(error);
            },
        }
        i = i + 1;
    }
    Ok(results)
}

} // verus!
