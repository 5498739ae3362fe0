//! The explorer's application state: the loaded examples, selection and
//! filtering, the console history, test-run records, hot-reload notices and
//! snackbars. Everything visual - panels, widgets, colors - lives outside
//! this crate; what is here is the state and the rules that drive it.

use vstd::prelude::*;

use crate::harness::{opt_text, run_suite, ExampleTestSuite, TestCaseResult, TestSuiteResult};
use crate::host::{Executor, RuntimeModel};
use crate::repo::{
    changes_model, examples_model, model_id, opt_example_model, spec_find_example,
    spec_has_example, ChangeKindModel, ChangeModel, Example, ExampleLibrary, ExampleMetadata,
    ExampleModel, RevertAction, ScriptChange, ScriptChangeKind,
};
use crate::text::{
    chars_of, concat2, decimal_chars, idx_of, idx_of_spec, is_prefix_of, is_substring, lower_of,
    lowercase, push_chars, push_str_chars, spec_decimal, starts_with_chars, string_from_chars,
    subrange_vec, trim_spec, trim_vec, contains_chars,
};
use crate::vm::{json_of_pairs, pairs_to_json};

verus! {

/// The most console lines kept; older lines are discarded first.
pub const MAX_CONSOLE_ENTRIES: usize = 400;

/// What kind of line a console entry is.
#[derive(Clone, Copy, Debug, PartialEq, Eq, Structural)]
pub enum ConsoleKind {
    Info,
    Stdout,
    Stderr,
    RunResult,
    Error,
    Log,
}

/// One line of the console history.
pub struct ConsoleEntry {
    pub kind: ConsoleKind,
    pub message: String,
}

impl Clone for ConsoleEntry {
    fn clone(&self) -> (r: Self)
        ensures
            r.kind == self.kind,
            r.message@ == self.message@,
    {
        ConsoleEntry { kind: self.kind, message: self.message.clone() }
    }
}

impl ConsoleEntry {
    /// An entry of the given kind.
    pub fn new(kind: ConsoleKind, message: String) -> (r: Self)
        ensures
            r.kind == kind,
            r.message == message,
    {
        ConsoleEntry { kind, message }
    }

    /// An informational entry.
    pub fn info(message: String) -> (r: Self)
        ensures
            r.kind == ConsoleKind::Info,
            r.message == message,
    {
        ConsoleEntry::new(ConsoleKind::Info, message)
    }

    /// An entry carrying a run's captured standard output.
    pub fn stdout(message: String) -> (r: Self)
        ensures
            r.kind == ConsoleKind::Stdout,
            r.message == message,
    {
        ConsoleEntry::new(ConsoleKind::Stdout, message)
    }

    /// An entry carrying a run's captured error output.
    pub fn stderr(message: String) -> (r: Self)
        ensures
            r.kind == ConsoleKind::Stderr,
            r.message == message,
    {
        ConsoleEntry::new(ConsoleKind::Stderr, message)
    }

    /// An entry carrying a run's return value.
    pub fn result(message: String) -> (r: Self)
        ensures
            r.kind == ConsoleKind::RunResult,
            r.message == message,
    {
        ConsoleEntry::new(ConsoleKind::RunResult, message)
    }

    /// An error entry.
    pub fn error(message: String) -> (r: Self)
        ensures
            r.kind == ConsoleKind::Error,
            r.message == message,
    {
        ConsoleEntry::new(ConsoleKind::Error, message)
    }

    /// An entry echoing a log line.
    pub fn log(message: String) -> (r: Self)
        ensures
            r.kind == ConsoleKind::Log,
            r.message == message,
    {
        ConsoleEntry::new(ConsoleKind::Log, message)
    }
}

/// The flavor of a transient notification.
#[derive(Clone, Copy, Debug, PartialEq, Eq, Structural)]
pub enum SnackbarKind {
    Success,
    Error,
    Info,
}

/// One transient notification.
pub struct Snackbar {
    pub message: String,
    pub kind: SnackbarKind,
    /// When the notification was created, Unix milliseconds.
    pub created_ms: u64,
    /// How long it stays visible, milliseconds.
    pub duration_ms: u64,
}

/// Which bottom pane is active.
#[derive(Clone, Copy, Debug, PartialEq, Eq, Structural)]
pub enum ConsolePane {
    Console,
    Tests,
}

/// What the last run produced, as remembered for display.
pub struct ExecutionSummary {
    pub duration_ms: u64,
    pub return_value: Option<String>,
    pub succeeded: bool,
}

/// One change detected on disk, kept until acted on or dismissed.
pub struct HotReloadNotice {
    pub change: ScriptChange,
}

/// One sidebar row.
pub struct ExampleListEntry {
    pub id: String,
    pub title: String,
    pub note: Option<String>,
}

/// The text after the last path separator; the whole text when it has none.
pub open spec fn file_name_spec(s: Seq<char>) -> Seq<char>
    decreases s.len(),
{
    match idx_of_spec(s, '/') {
        Some(i) => {
            if 0 <= i < s.len() {
                file_name_spec(s.subrange(i + 1, s.len() as int))
            } else {
                s
            }
        },
        None => s,
    }
}

/// The file-name part of a path.
pub fn file_name_chars(v: &Vec<char>) -> (r: Vec<char>)
    ensures
        r@ == file_name_spec(v@),
    decreases v@.len(),
{
    let n = v.len();
    match idx_of(v, '/') {
        Some(i) => {
            let rest = subrange_vec(v, i + 1, n);
            file_name_chars(&rest)
        },
        None => subrange_vec(v, 0, n),
    }
}

/// The verb a change is described with.
pub open spec fn change_verb(had_previous: bool, has_current: bool) -> Seq<char> {
    if !had_previous && has_current {
        "added"@
    } else if had_previous && !has_current {
        "removed"@
    } else {
        "updated"@
    }
}

/// The description of one change: the example, what kind of file changed,
/// the suite when one is involved, the verb, and the file name.
pub open spec fn change_action_spec(
    kind_label: Seq<char>,
    c: ChangeModel,
    had_previous: bool,
    has_current: bool,
    suite: Option<Seq<char>>,
) -> Seq<char> {
    let verb = change_verb(had_previous, has_current);
    let file = file_name_spec(c.path);
    match suite {
        Some(suite_id) => "Example '"@ + c.example_id + "' "@ + kind_label + " '"@ + suite_id
            + "' "@ + verb + " ("@ + file + ")"@,
        None => "Example '"@ + c.example_id + "' "@ + kind_label + " "@ + verb + " ("@ + file
            + ")"@,
    }
}

/// Builds the description of one change.
pub fn change_action(
    kind_label: &str,
    change: &ScriptChange,
    had_previous: bool,
    has_current: bool,
    suite: Option<&String>,
) -> (r: String)
    ensures
        r@ == change_action_spec(
            kind_label@,
            change@,
            had_previous,
            has_current,
            match suite {
                Some(s) => Some(s@),
                None => None,
            },
        ),
{
    let verb: &str = if !had_previous && has_current {
        "added"
    } else if had_previous && !has_current {
        "removed"
    } else {
        "updated"
    };
    let path_chars = chars_of(change.path.as_str());
    let file = file_name_chars(&path_chars);
    let mut out: Vec<char> = Vec::new();
    push_str_chars(&mut out, "Example '");
    push_str_chars(&mut out, change.example_id.as_str());
    push_str_chars(&mut out, "' ");
    push_str_chars(&mut out, kind_label);
    match suite {
        Some(suite_id) => {
            push_str_chars(&mut out, " '");
            push_str_chars(&mut out, suite_id.as_str());
            push_str_chars(&mut out, "' ");
        },
        None => {
            push_str_chars(&mut out, " ");
        },
    }
    push_str_chars(&mut out, verb);
    push_str_chars(&mut out, " (");
    push_chars(&mut out, file.as_slice());
    push_str_chars(&mut out, ")");
    let r = string_from_chars(&out);
    proof {
        assert(r@ =~= change_action_spec(
            kind_label@,
            change@,
            had_previous,
            has_current,
            match suite {
                Some(s) => Some(s@),
                None => None,
            },
        ));
    }
    r
}

/// The description of one change record.
pub open spec fn describe_change_spec(c: ChangeModel) -> Seq<char> {
    match c.kind {
        ChangeKindModel::ScriptUpdated { previous, current } => change_action_spec(
            "script"@,
            c,
            previous is Some,
            current is Some,
            None,
        ),
        ChangeKindModel::TestSuiteUpdated { suite_id, previous, current } => change_action_spec(
            "test suite"@,
            c,
            previous is Some,
            current is Some,
            Some(suite_id),
        ),
    }
}

/// Describes one change record for the console and for notifications.
pub fn describe_change(change: &ScriptChange) -> (r: String)
    ensures
        r@ == describe_change_spec(change@),
{
    match &change.kind {
        ScriptChangeKind::ScriptUpdated { previous, current } => {
            change_action("script", change, previous.is_some(), current.is_some(), None)
        },
        ScriptChangeKind::TestSuiteUpdated { suite_id, previous, current } => {
            change_action(
                "test suite",
                change,
                previous.is_some(),
                current.is_some(),
                Some(suite_id),
            )
        },
    }
}

/// How long ago a duration is, phrased coarsely: whole hours and minutes
/// above an hour, minutes and seconds above a minute, whole seconds above a
/// second, milliseconds below that.
pub open spec fn format_elapsed_spec(ms: nat) -> Seq<char> {
    let secs = ms / 1000;
    if secs >= 3600 {
        let hours = secs / 3600;
        let minutes = (secs % 3600) / 60;
        if minutes == 0 {
            spec_decimal(hours) + "h ago"@
        } else {
            spec_decimal(hours) + "h "@ + spec_decimal(minutes) + "m ago"@
        }
    } else if secs >= 60 {
        let minutes = secs / 60;
        let seconds = secs % 60;
        if seconds == 0 {
            spec_decimal(minutes) + "m ago"@
        } else {
            spec_decimal(minutes) + "m "@ + spec_decimal(seconds) + "s ago"@
        }
    } else if ms >= 1000 {
        spec_decimal(secs) + "s ago"@
    } else {
        spec_decimal(ms) + "ms ago"@
    }
}

/// Phrases an elapsed duration.
pub fn format_elapsed(duration_ms: u64) -> (r: String)
    ensures
        r@ == format_elapsed_spec(duration_ms as nat),
{
    let secs = duration_ms / 1000;
    let mut out: Vec<char> = Vec::new();
    if secs >= 3600 {
        let hours = secs / 3600;
        let minutes = (secs % 3600) / 60;
        let hour_digits = decimal_chars(hours);
        push_chars(&mut out, hour_digits.as_slice());
        if minutes == 0 {
            push_str_chars(&mut out, "h ago");
        } else {
            push_str_chars(&mut out, "h ");
            let minute_digits = decimal_chars(minutes);
            push_chars(&mut out, minute_digits.as_slice());
            push_str_chars(&mut out, "m ago");
        }
    } else if secs >= 60 {
        let minutes = secs / 60;
        let seconds = secs % 60;
        let minute_digits = decimal_chars(minutes);
        push_chars(&mut out, minute_digits.as_slice());
        if seconds == 0 {
            push_str_chars(&mut out, "m ago");
        } else {
            push_str_chars(&mut out, "m ");
            let second_digits = decimal_chars(seconds);
            push_chars(&mut out, second_digits.as_slice());
            push_str_chars(&mut out, "s ago");
        }
    } else if duration_ms >= 1000 {
        let digits = decimal_chars(secs);
        push_chars(&mut out, digits.as_slice());
        push_str_chars(&mut out, "s ago");
    } else {
        let digits = decimal_chars(duration_ms);
        push_chars(&mut out, digits.as_slice());
        push_str_chars(&mut out, "ms ago");
    }
    let r = string_from_chars(&out);
    proof {
        assert(r@ =~= format_elapsed_spec(duration_ms as nat));
    }
    r
}


/// The mathematical value of a notification list.
pub open spec fn snackbars_model(s: Seq<Snackbar>) -> Seq<(Seq<char>, SnackbarKind, u64, u64)> {
    s.map_values(|sb: Snackbar| (sb.message@, sb.kind, sb.created_ms, sb.duration_ms))
}

/// The mathematical value of a console history.
pub open spec fn console_model(s: Seq<ConsoleEntry>) -> Seq<(ConsoleKind, Seq<char>)> {
    s.map_values(|e: ConsoleEntry| (e.kind, e.message@))
}

/// A console history capped to the most recent entries, at the model level.
pub open spec fn capped_console(s: Seq<(ConsoleKind, Seq<char>)>) -> Seq<(ConsoleKind, Seq<char>)> {
    if s.len() > MAX_CONSOLE_ENTRIES as int {
        s.skip(s.len() - MAX_CONSOLE_ENTRIES as int)
    } else {
        s
    }
}

/// How many cases of a run passed.
pub open spec fn passed_count_spec(cases: Seq<TestCaseResult>) -> nat
    decreases cases.len(),
{
    if cases.len() == 0 {
        0
    } else {
        passed_count_spec(cases.drop_last()) + (if cases.last().status
            == crate::harness::TestStatus::Passed {
            1nat
        } else {
            0nat
        })
    }
}

/// The console and notification summary of one recorded suite run.
pub open spec fn suite_summary_text(suite_name: Seq<char>, res: TestSuiteResult) -> Seq<char> {
    "Suite '"@ + suite_name + "' finished: "@ + spec_decimal(passed_count_spec(res.cases@))
        + "/"@ + spec_decimal(res.cases@.len() as nat) + " cases passed ("@ + spec_decimal(
        res.total_duration_ms as nat,
    ) + " ms)"@
}

/// Whether a test-run key still names a suite of the current generation.
pub open spec fn run_key_current(key: Seq<char>, examples: Seq<ExampleModel>) -> bool {
    exists|i: int, j: int|
        0 <= i < examples.len() && 0 <= j < examples[i].test_suites.len() && key == model_id(
            examples[i],
        ) + "::"@ + (#[trigger] examples[i].test_suites[j]).id
}

/// The predicate keeping test runs whose key does not start with a prefix.
pub open spec fn keeps_without_prefix(prefix: Seq<char>) -> spec_fn((String, TestSuiteResult)) -> bool {
    |p: (String, TestSuiteResult)| !is_prefix_of(prefix, p.0@)
}

/// The predicate keeping test runs whose key differs from one key.
pub open spec fn keeps_without_key(key: Seq<char>) -> spec_fn((String, TestSuiteResult)) -> bool {
    |p: (String, TestSuiteResult)| p.0@ != key
}

/// The predicate keeping test runs whose key is still current.
pub open spec fn keeps_current(examples: Seq<ExampleModel>) -> spec_fn(
    (String, TestSuiteResult),
) -> bool {
    |p: (String, TestSuiteResult)| run_key_current(p.0@, examples)
}

/// The predicate keeping notices about examples that still exist.
pub open spec fn notice_current(examples: Seq<ExampleModel>) -> spec_fn(HotReloadNotice) -> bool {
    |n: HotReloadNotice| spec_has_example(examples, n.change@.example_id)
}

/// A console history capped to the most recent entries.
pub open spec fn capped_history(s: Seq<ConsoleEntry>) -> Seq<ConsoleEntry> {
    if s.len() > MAX_CONSOLE_ENTRIES as int {
        s.skip(s.len() - MAX_CONSOLE_ENTRIES as int)
    } else {
        s
    }
}

/// A notice list capped to the twenty most recent.
pub open spec fn capped_notices(s: Seq<HotReloadNotice>) -> Seq<HotReloadNotice> {
    if s.len() > 20 {
        s.skip(s.len() - 20)
    } else {
        s
    }
}

/// Notices, at the model level.
pub open spec fn notices_model(s: Seq<HotReloadNotice>) -> Seq<ChangeModel> {
    s.map_values(|n: HotReloadNotice| n.change@)
}

/// The model-level notice predicate: the change's example still exists.
pub open spec fn change_current(examples: Seq<ExampleModel>) -> spec_fn(ChangeModel) -> bool {
    |c: ChangeModel| spec_has_example(examples, c.example_id)
}

/// A notice list capped to the twenty most recent, at the model level.
pub open spec fn capped_changes(s: Seq<ChangeModel>) -> Seq<ChangeModel> {
    if s.len() > 20 {
        s.skip(s.len() - 20)
    } else {
        s
    }
}

/// The notifications one batch of handled changes queues.
pub open spec fn snackbar_batch(changes: Seq<ChangeModel>, now_ms: u64) -> Seq<
    (Seq<char>, SnackbarKind, u64, u64),
> {
    changes.map_values(|c: ChangeModel| (describe_change_spec(c), SnackbarKind::Info, now_ms, 4000u64))
}

/// The console history after noting a batch of changes, one capped log line
/// per change.
pub open spec fn console_after_changes(
    hist: Seq<(ConsoleKind, Seq<char>)>,
    changes: Seq<ChangeModel>,
) -> Seq<(ConsoleKind, Seq<char>)>
    decreases changes.len(),
{
    if changes.len() == 0 {
        hist
    } else {
        capped_console(
            console_after_changes(hist, changes.drop_last()).push(
                (ConsoleKind::Log, describe_change_spec(changes.last())),
            ),
        )
    }
}

/// The notice models after one batch is handled: nothing when the batch is
/// empty, otherwise the batch appended, stale notices dropped, and the list
/// capped.
pub open spec fn handled_notice_models(
    before: Seq<ChangeModel>,
    incoming: Seq<ChangeModel>,
    examples: Seq<ExampleModel>,
) -> Seq<ChangeModel> {
    if incoming.len() == 0 {
        before
    } else {
        capped_changes((before + incoming).filter(change_current(examples)))
    }
}

proof fn lemma_notices_model_skip(s: Seq<HotReloadNotice>, k: int)
    requires
        0 <= k <= s.len(),
    ensures
        notices_model(s.skip(k)) == notices_model(s).skip(k),
{
    assert(notices_model(s.skip(k)) =~= notices_model(s).skip(k));
}

proof fn lemma_notices_model_filter(s: Seq<HotReloadNotice>, examples: Seq<ExampleModel>)
    ensures
        notices_model(s.filter(notice_current(examples))) == notices_model(s).filter(
            change_current(examples),
        ),
    decreases s.len(),
{
    reveal(Seq::filter);
    if s.len() == 0 {
        assert(notices_model(s.filter(notice_current(examples))) =~= notices_model(s).filter(
            change_current(examples),
        ));
    } else {
        lemma_notices_model_filter(s.drop_last(), examples);
        assert(notices_model(s).drop_last() =~= notices_model(s.drop_last()));
        assert(notices_model(s).last() == s.last().change@);
        if notice_current(examples)(s.last()) {
            assert(notices_model(s.filter(notice_current(examples))) =~= notices_model(
                s.drop_last(),
            ).filter(change_current(examples)).push(s.last().change@));
            assert(notices_model(s).filter(change_current(examples)) =~= notices_model(
                s.drop_last(),
            ).filter(change_current(examples)).push(s.last().change@));
        } else {
            assert(notices_model(s.filter(notice_current(examples))) =~= notices_model(
                s.drop_last(),
            ).filter(change_current(examples)));
            assert(notices_model(s).filter(change_current(examples)) =~= notices_model(
                s.drop_last(),
            ).filter(change_current(examples)));
        }
    }
}

proof fn lemma_notices_model_capped(s: Seq<HotReloadNotice>)
    ensures
        notices_model(capped_notices(s)) == capped_changes(notices_model(s)),
{
    if s.len() > 20 {
        lemma_notices_model_skip(s, s.len() - 20);
    }
    assert(notices_model(capped_notices(s)) =~= capped_changes(notices_model(s)));
}

proof fn lemma_console_model_capped(s: Seq<ConsoleEntry>)
    ensures
        console_model(capped_history(s)) == capped_console(console_model(s)),
{
    if s.len() > MAX_CONSOLE_ENTRIES as int {
        assert(console_model(s.skip(s.len() - MAX_CONSOLE_ENTRIES as int)) =~= console_model(
            s,
        ).skip(s.len() - MAX_CONSOLE_ENTRIES as int));
    }
    assert(console_model(capped_history(s)) =~= capped_console(console_model(s)));
}

/// The input map an example's declared inputs start from: each input's name
/// bound to its default, or to the empty string without one.
pub open spec fn default_inputs(inputs: Seq<crate::repo::InputModel>) -> Seq<(Seq<char>, Seq<char>)> {
    inputs.map_values(
        |inp: crate::repo::InputModel|
            (
                inp.name,
                match inp.default {
                    Some(d) => d,
                    None => Seq::<char>::empty(),
                },
            ),
    )
}

/// The mathematical value of an input-value list.
pub open spec fn pairs_model(s: Seq<(String, String)>) -> Seq<(Seq<char>, Seq<char>)> {
    s.map_values(|p: (String, String)| (p.0@, p.1@))
}

/// Whether an example passes the category filters: with no filter everything
/// passes, otherwise one of its categories must be selected.
pub open spec fn category_filters_pass(categories: Seq<Seq<char>>, filters: Seq<Seq<char>>) -> bool {
    filters.len() == 0 || exists|i: int|
        0 <= i < categories.len() && filters.contains(#[trigger] categories[i])
}

/// Whether a lowercased query hits one of an example's searchable fields.
pub open spec fn query_hits(m: crate::repo::MetadataModel, q: Seq<char>) -> bool {
    ||| is_substring(q, lower_of(m.title))
    ||| is_substring(q, lower_of(m.description))
    ||| match m.note {
        Some(n) => is_substring(q, lower_of(n)),
        None => false,
    }
    ||| exists|i: int| 0 <= i < m.categories.len() && is_substring(q, lower_of(#[trigger] m.categories[i]))
    ||| is_substring(q, lower_of(m.id))
}

/// Whether an example passes the sidebar filters: the category filter, and
/// the search query matched case-insensitively against title, description,
/// note, categories and id.
pub open spec fn passes_filters_spec(
    e: ExampleModel,
    filters: Seq<Seq<char>>,
    query: Seq<char>,
) -> bool {
    &&& category_filters_pass(e.metadata.categories, filters)
    &&& {
        let q = lower_of(trim_spec(query));
        q.len() == 0 || query_hits(e.metadata, q)
    }
}

fn retain_runs(
    runs: Vec<(String, TestSuiteResult)>,
    keep_pred: Ghost<spec_fn((String, TestSuiteResult)) -> bool>,
    prefix_mode: bool,
    needle: &String,
    examples: &Vec<Example>,
) -> (r: Vec<(String, TestSuiteResult)>)
    requires
        prefix_mode ==> keep_pred@ == keeps_without_prefix(needle@),
        !prefix_mode ==> keep_pred@ == keeps_without_key(needle@),
    ensures
        r@ == runs@.filter(keep_pred@),
{
    let ghost all = runs@;
    let ghost pred = keep_pred@;
    let n = runs.len();
    let mut remaining = runs;
    let mut kept: Vec<(String, TestSuiteResult)> = Vec::new();
    let mut i: usize = 0;
    proof {
        reveal(Seq::filter);
        assert(all.take(0).filter(pred) =~= Seq::<(String, TestSuiteResult)>::empty());
    }
    while i < n
        invariant
            i <= n,
            n == all.len(),
            remaining@ == all.skip(i as int),
            kept@ == all.take(i as int).filter(pred),
            prefix_mode ==> pred == keeps_without_prefix(needle@),
            !prefix_mode ==> pred == keeps_without_key(needle@),
        decreases n - i,
    {
        let ghost pre = remaining@;
        let entry = remaining.remove(0);
        proof {
            assert(entry == all[i as int]);
            assert(pre.drop_first() =~= all.skip(i as int + 1));
        }
        let keep: bool = if prefix_mode {
            let key_chars = chars_of(entry.0.as_str());
            !starts_with_chars(&key_chars, needle.as_str())
        } else {
            !(entry.0 == *needle)
        };
        proof {
            assert(keep == pred(entry));
            reveal(Seq::filter);
            assert(all.take(i as int + 1).drop_last() =~= all.take(i as int));
            assert(all.take(i as int + 1).last() == all[i as int]);
        }
        if keep {
            kept.push(entry);
        }
        i = i + 1;
    }
    proof {
        assert(all.take(n as int) =~= all);
    }
    kept
}

/// Whether a test-run key still names a suite of the given generation.
fn key_is_current(key: &String, examples: &Vec<Example>) -> (r: bool)
    ensures
        r == run_key_current(key@, examples_model(examples@)),
{
    let ghost m = examples_model(examples@);
    let mut i: usize = 0;
    while i < examples.len()
        invariant
            i <= examples@.len(),
            m == examples_model(examples@),
            forall|a: int, b: int|
                0 <= a < i as int && 0 <= b < m[a].test_suites.len() ==> key@ != model_id(m[a])
                    + "::"@ + (#[trigger] m[a].test_suites[b]).id,
        decreases examples@.len() - i,
    {
        proof {
            assert(m[i as int] == examples@[i as int]@);
        }
        let prefix = concat2(examples[i].metadata.id.as_str(), "::");
        let suites = &examples[i].test_suites;
        let mut j: usize = 0;
        while j < suites.len()
            invariant
                j <= suites@.len(),
                i < examples@.len(),
                m == examples_model(examples@),
                m[i as int] == examples@[i as int]@,
                suites == &examples@[i as int].test_suites,
                prefix@ == model_id(m[i as int]) + "::"@,
                forall|b: int|
                    0 <= b < j as int ==> key@ != model_id(m[i as int]) + "::"@ + (
                    #[trigger] m[i as int].test_suites[b]).id,
            decreases suites@.len() - j,
        {
            proof {
                assert(m[i as int].test_suites[j as int] == suites@[j as int]@);
            }
            let candidate = concat2(prefix.as_str(), suites[j].id.as_str());
            if *key == candidate {
                proof {
                    let ghost suite_id = m[i as int].test_suites[j as int].id;
                    assert(key@ == model_id(m[i as int]) + "::"@ + suite_id);
                }
                return true;
            }
            j = j + 1;
        }
        i = i + 1;
    }
    proof {
        assert(!run_key_current(key@, m)) by {
            if run_key_current(key@, m) {
                let (a, b) = choose|a: int, b: int|
                    0 <= a < m.len() && 0 <= b < m[a].test_suites.len() && key@ == model_id(m[a])
                        + "::"@ + (#[trigger] m[a].test_suites[b]).id;
                assert(false);
            }
        }
    }
    false
}

fn retain_current_runs(runs: Vec<(String, TestSuiteResult)>, examples: &Vec<Example>) -> (r: Vec<
    (String, TestSuiteResult),
>)
    ensures
        r@ == runs@.filter(keeps_current(examples_model(examples@))),
{
    let ghost all = runs@;
    let ghost pred = keeps_current(examples_model(examples@));
    let n = runs.len();
    let mut remaining = runs;
    let mut kept: Vec<(String, TestSuiteResult)> = Vec::new();
    let mut i: usize = 0;
    proof {
        reveal(Seq::filter);
        assert(all.take(0).filter(pred) =~= Seq::<(String, TestSuiteResult)>::empty());
    }
    while i < n
        invariant
            i <= n,
            n == all.len(),
            remaining@ == all.skip(i as int),
            kept@ == all.take(i as int).filter(pred),
            pred == keeps_current(examples_model(examples@)),
        decreases n - i,
    {
        let ghost pre = remaining@;
        let entry = remaining.remove(0);
        proof {
            assert(entry == all[i as int]);
            assert(pre.drop_first() =~= all.skip(i as int + 1));
        }
        let keep = key_is_current(&entry.0, examples);
        proof {
            assert(keep == pred(entry));
            reveal(Seq::filter);
            assert(all.take(i as int + 1).drop_last() =~= all.take(i as int));
            assert(all.take(i as int + 1).last() == all[i as int]);
        }
        if keep {
            kept.push(entry);
        }
        i = i + 1;
    }
    proof {
        assert(all.take(n as int) =~= all);
    }
    kept
}

fn retain_current_notices(notices: Vec<HotReloadNotice>, examples: &Vec<Example>) -> (r: Vec<
    HotReloadNotice,
>)
    ensures
        r@ == notices@.filter(notice_current(examples_model(examples@))),
{
    let ghost all = notices@;
    let ghost pred = notice_current(examples_model(examples@));
    let n = notices.len();
    let mut remaining = notices;
    let mut kept: Vec<HotReloadNotice> = Vec::new();
    let mut i: usize = 0;
    proof {
        reveal(Seq::filter);
        assert(all.take(0).filter(pred) =~= Seq::<HotReloadNotice>::empty());
    }
    while i < n
        invariant
            i <= n,
            n == all.len(),
            remaining@ == all.skip(i as int),
            kept@ == all.take(i as int).filter(pred),
            pred == notice_current(examples_model(examples@)),
        decreases n - i,
    {
        let ghost pre = remaining@;
        let entry = remaining.remove(0);
        proof {
            assert(entry == all[i as int]);
            assert(pre.drop_first() =~= all.skip(i as int + 1));
        }
        let keep = match crate::repo::find_example_from(examples, 0, &entry.change.example_id) {
            Some(_) => true,
            None => false,
        };
        proof {
            assert(examples@.skip(0) =~= examples@);
            assert(keep == pred(entry));
            reveal(Seq::filter);
            assert(all.take(i as int + 1).drop_last() =~= all.take(i as int));
            assert(all.take(i as int + 1).last() == all[i as int]);
        }
        if keep {
            kept.push(entry);
        }
        i = i + 1;
    }
    proof {
        assert(all.take(n as int) =~= all);
    }
    kept
}


/// The explorer's state. The repository is owned and passed in explicitly;
/// filesystem scanning happens outside, and the methods that react to disk
/// changes receive fresh scans as plain values.
pub struct ExplorerApp {
    pub example_library: Option<ExampleLibrary>,
    pub examples: Vec<Example>,
    pub examples_version: usize,
    pub selected_example_id: Option<String>,
    pub search_query: String,
    pub category_filters: Vec<String>,
    pub console_entries: Vec<ConsoleEntry>,
    pub last_execution: Option<ExecutionSummary>,
    pub input_values: Vec<(String, String)>,
    pub watch_mode_enabled: bool,
    pub hot_reload_enabled: bool,
    pub has_loaded_examples_once: bool,
    pub pending_hot_reload_run: bool,
    pub snackbars: Vec<Snackbar>,
    pub active_console_pane: ConsolePane,
    pub test_runs: Vec<(String, TestSuiteResult)>,
    pub hot_reload_notices: Vec<HotReloadNotice>,
}

impl ExplorerApp {
    /// A fresh explorer around an optional repository: its examples are the
    /// repository's current generation, the first example is selected and
    /// its input defaults applied, and the console greets.
    pub fn new(example_library: Option<ExampleLibrary>) -> (r: Self)
        ensures
            r.watch_mode_enabled,
            !r.hot_reload_enabled,
            !r.pending_hot_reload_run,
            r.console_entries@.len() == 1,
            r.active_console_pane == ConsolePane::Console,
            match r.example_library {
                Some(lib) => examples_model(r.examples@) == lib@.examples && r.examples_version
                    == lib@.version,
                None => r.examples@.len() == 0 && r.examples_version == 0,
            },
            (r.selected_example_id is Some) == (r.examples@.len() > 0),
            r.has_loaded_examples_once == (r.examples@.len() > 0),
            r.examples@.len() > 0 ==> (r.selected_example_id matches Some(s) && s@ == model_id(
                examples_model(r.examples@)[0],
            ) && pairs_model(r.input_values@) == default_inputs(
                examples_model(r.examples@)[0].metadata.inputs,
            )),
            r.examples@.len() == 0 ==> r.input_values@.len() == 0,
    {
        let (examples, examples_version): (Vec<Example>, usize) = match &example_library {
            Some(lib) => (lib.snapshot(), lib.version()),
            None => (Vec::new(), 0),
        };
        let selected_example_id: Option<String> = if examples.len() > 0 {
            Some(examples[0].metadata.id.clone())
        } else {
            None
        };
        let has_examples = examples.len() > 0;
        let mut app = ExplorerApp {
            example_library,
            examples,
            examples_version,
            selected_example_id,
            search_query: String::new(),
            category_filters: Vec::new(),
            console_entries: Vec::new(),
            last_execution: None,
            input_values: Vec::new(),
            watch_mode_enabled: true,
            hot_reload_enabled: false,
            has_loaded_examples_once: has_examples,
            pending_hot_reload_run: false,
            snackbars: Vec::new(),
            active_console_pane: ConsolePane::Console,
            test_runs: Vec::new(),
            hot_reload_notices: Vec::new(),
        };
        app.console_entries.push(
            ConsoleEntry::info("Ready to explore Koto scripts".to_owned()),
        );
        if app.examples.len() > 0 {
            proof {
                assert(examples_model(app.examples@)[0] == app.examples@[0]@);
            }
            let metadata = app.examples[0].metadata.clone();
            app.apply_input_defaults(&metadata);
        }
        app
    }

    /// The currently selected example, as an independent snapshot.
    pub fn selected_example(&self) -> (r: Option<Example>)
        ensures
            match self.selected_example_id {
                Some(id) => opt_example_model(r) == spec_find_example(
                    examples_model(self.examples@),
                    id@,
                ),
                None => r is None,
            },
    {
        match &self.selected_example_id {
            Some(id) => {
                let r = crate::repo::find_example_from(&self.examples, 0, id);
                proof {
                    assert(self.examples@.skip(0) =~= self.examples@);
                }
                r
            },
            None => None,
        }
    }

    /// Appends a console entry, discarding the oldest lines beyond the cap.
    pub fn push_console_entry(&mut self, entry: ConsoleEntry)
        ensures
            *final(self) == (ExplorerApp {
                console_entries: final(self).console_entries,
                ..*old(self)
            }),
            final(self).console_entries@ == capped_history(
                old(self).console_entries@.push(entry),
            ),
    {
        self.console_entries.push(entry);
        self.trim_console_history();
    }

    /// Discards the oldest console lines beyond the cap.
    pub fn trim_console_history(&mut self)
        ensures
            *final(self) == (ExplorerApp {
                console_entries: final(self).console_entries,
                ..*old(self)
            }),
            final(self).console_entries@ == capped_history(old(self).console_entries@),
    {
        let ghost all = self.console_entries@;
        if self.console_entries.len() > MAX_CONSOLE_ENTRIES {
            let excess = self.console_entries.len() - MAX_CONSOLE_ENTRIES;
            let mut k: usize = 0;
            while k < excess
                invariant
                    k <= excess,
                    excess == all.len() - MAX_CONSOLE_ENTRIES as int,
                    self.console_entries@ == all.skip(k as int),
                    *self == (ExplorerApp { console_entries: self.console_entries, ..*old(self) }),
                decreases excess - k,
            {
                let ghost pre = self.console_entries@;
                self.console_entries.remove(0);
                proof {
                    assert(pre.drop_first() =~= all.skip(k as int + 1));
                }
                k = k + 1;
            }
        }
    }

    /// Queues a transient notification that stays for four seconds.
    pub fn push_snackbar(&mut self, message: String, kind: SnackbarKind, now_ms: u64)
        ensures
            *final(self) == (ExplorerApp { snackbars: final(self).snackbars, ..*old(self) }),
            final(self).snackbars@ == old(self).snackbars@.push(
                Snackbar { message, kind, created_ms: now_ms, duration_ms: 4000 },
            ),
    {
        self.snackbars.push(Snackbar { message, kind, created_ms: now_ms, duration_ms: 4000 });
    }

    /// Resets the input values to an example's declared defaults.
    pub fn apply_input_defaults(&mut self, metadata: &ExampleMetadata)
        ensures
            *final(self) == (ExplorerApp { input_values: final(self).input_values, ..*old(self) }),
            pairs_model(final(self).input_values@) == default_inputs(metadata@.inputs),
    {
        let mut values: Vec<(String, String)> = Vec::new();
        let mut i: usize = 0;
        while i < metadata.inputs.len()
            invariant
                i <= metadata.inputs@.len(),
                values@.len() == i as int,
                forall|j: int|
                    0 <= j < i as int ==> pairs_model(values@)[j] == default_inputs(
                        metadata@.inputs,
                    )[j],
            decreases metadata.inputs@.len() - i,
        {
            let input = &metadata.inputs[i];
            let value: String = match &input.default {
                Some(d) => d.clone(),
                None => String::new(),
            };
            let ghost prev = values@;
            values.push((input.name.clone(), value));
            proof {
                assert(metadata@.inputs[i as int] == metadata.inputs@[i as int]@);
                assert forall|j: int| 0 <= j <= i as int implies pairs_model(values@)[j]
                    == default_inputs(metadata@.inputs)[j] by {
                    if j < i as int {
                        assert(values@[j] == prev[j]);
                        assert(pairs_model(prev)[j] == default_inputs(metadata@.inputs)[j]);
                    } else {
                        assert(pairs_model(values@)[j] == (values@[j].0@, values@[j].1@));
                    }
                }
            }
            i = i + 1;
        }
        self.input_values = values;
        proof {
            assert(pairs_model(self.input_values@) =~= default_inputs(metadata@.inputs));
        }
    }

    /// Whether an example passes the category filters alone.
    fn category_ok(&self, example: &Example) -> (r: bool)
        ensures
            r == category_filters_pass(
                example@.metadata.categories,
                self.category_filters.deep_view(),
            ),
    {
        let ghost filters = self.category_filters.deep_view();
        if self.category_filters.len() == 0 {
            return true;
        }
        let cats = &example.metadata.categories;
        let mut i: usize = 0;
        while i < cats.len()
            invariant
                i <= cats@.len(),
                cats == &example.metadata.categories,
                filters == self.category_filters.deep_view(),
                forall|a: int|
                    0 <= a < i as int ==> !filters.contains(
                        #[trigger] example@.metadata.categories[a],
                    ),
            decreases cats@.len() - i,
        {
            let mut f: usize = 0;
            while f < self.category_filters.len()
                invariant
                    f <= self.category_filters@.len(),
                    i < cats@.len(),
                    cats == &example.metadata.categories,
                    filters == self.category_filters.deep_view(),
                    forall|b: int|
                        0 <= b < f as int ==> filters[b] != example@.metadata.categories[i as int],
                decreases self.category_filters@.len() - f,
            {
                if self.category_filters[f] == cats[i] {
                    proof {
                        assert(filters[f as int] == self.category_filters@[f as int]@);
                        assert(example@.metadata.categories[i as int] == cats@[i as int]@);
                        assert(filters.contains(example@.metadata.categories[i as int]));
                    }
                    return true;
                }
                proof {
                    assert(filters[f as int] == self.category_filters@[f as int]@);
                    assert(example@.metadata.categories[i as int] == cats@[i as int]@);
                }
                f = f + 1;
            }
            proof {
                assert(!filters.contains(example@.metadata.categories[i as int])) by {
                    if filters.contains(example@.metadata.categories[i as int]) {
                        let b = choose|b: int|
                            0 <= b < filters.len() && filters[b] == example@.metadata.categories[
                                i as int
                            ];
                        assert(false);
                    }
                }
            }
            i = i + 1;
        }
        proof {
            assert(!category_filters_pass(example@.metadata.categories, filters)) by {
                if category_filters_pass(example@.metadata.categories, filters) {
                    let a = choose|a: int|
                        0 <= a < example@.metadata.categories.len() && filters.contains(
                            #[trigger] example@.metadata.categories[a],
                        );
                    assert(false);
                }
            }
        }
        false
    }

    /// Whether an example passes the sidebar filters.
    pub fn passes_filters(&self, example: &Example) -> (r: bool)
        ensures
            r == passes_filters_spec(
                example@,
                self.category_filters.deep_view(),
                self.search_query@,
            ),
    {
        if !self.category_ok(example) {
            return false;
        }
        let raw = chars_of(self.search_query.as_str());
        let trimmed = trim_vec(&raw);
        let lowered = lowercase(string_from_chars(&trimmed).as_str());
        let q = chars_of(lowered.as_str());
        if q.len() == 0 {
            return true;
        }
        let title_l = chars_of(lowercase(example.metadata.title.as_str()).as_str());
        if contains_chars(&title_l, &q) {
            return true;
        }
        let description_l = chars_of(lowercase(example.metadata.description.as_str()).as_str());
        if contains_chars(&description_l, &q) {
            return true;
        }
        match &example.metadata.note {
            Some(note) => {
                let note_l = chars_of(lowercase(note.as_str()).as_str());
                if contains_chars(&note_l, &q) {
                    return true;
                }
            },
            None => {},
        }
        let cats = &example.metadata.categories;
        let mut i: usize = 0;
        while i < cats.len()
            invariant
                i <= cats@.len(),
                cats == &example.metadata.categories,
                q@ == lower_of(trim_spec(self.search_query@)),
                category_filters_pass(
                    example@.metadata.categories,
                    self.category_filters.deep_view(),
                ),
                forall|a: int|
                    0 <= a < i as int ==> !is_substring(
                        q@,
                        lower_of(#[trigger] example@.metadata.categories[a]),
                    ),
            decreases cats@.len() - i,
        {
            let cat_l = chars_of(lowercase(cats[i].as_str()).as_str());
            proof {
                assert(example@.metadata.categories[i as int] == cats@[i as int]@);
            }
            if contains_chars(&cat_l, &q) {
                return true;
            }
            i = i + 1;
        }
        let id_l = chars_of(lowercase(example.metadata.id.as_str()).as_str());
        if contains_chars(&id_l, &q) {
            return true;
        }
        proof {
            assert(!query_hits(example@.metadata, q@)) by {
                if exists|a: int|
                    0 <= a < example@.metadata.categories.len() && is_substring(
                        q@,
                        lower_of(#[trigger] example@.metadata.categories[a]),
                    ) {
                    let a = choose|a: int|
                        0 <= a < example@.metadata.categories.len() && is_substring(
                            q@,
                            lower_of(#[trigger] example@.metadata.categories[a]),
                        );
                    assert(false);
                }
            }
        }
        false
    }

    /// Forgets the test runs a change invalidates: every run of the example
    /// for a script change, the one suite's run for a suite change; then
    /// notes the change in the console and as a notification.
    pub fn on_script_change(&mut self, change: &ScriptChange, now_ms: u64)
        ensures
            *final(self) == (ExplorerApp {
                test_runs: final(self).test_runs,
                console_entries: final(self).console_entries,
                snackbars: final(self).snackbars,
                ..*old(self)
            }),
            console_model(final(self).console_entries@) == capped_console(
                console_model(old(self).console_entries@).push(
                    (ConsoleKind::Log, describe_change_spec(change@)),
                ),
            ),
            snackbars_model(final(self).snackbars@) == snackbars_model(old(self).snackbars@).push(
                (describe_change_spec(change@), SnackbarKind::Info, now_ms, 4000u64),
            ),
            match change@.kind {
                ChangeKindModel::ScriptUpdated { previous, current } => final(self).test_runs@
                    == old(self).test_runs@.filter(
                    keeps_without_prefix(change@.example_id + "::"@),
                ),
                ChangeKindModel::TestSuiteUpdated { suite_id, previous, current } => final(self).test_runs@
                    == old(self).test_runs@.filter(
                    keeps_without_key(change@.example_id + "::"@ + suite_id),
                ),
            },
    {
        let mut runs: Vec<(String, TestSuiteResult)> = Vec::new();
        core::mem::swap(&mut runs, &mut self.test_runs);
        match &change.kind {
            ScriptChangeKind::ScriptUpdated { .. } => {
                let prefix = concat2(change.example_id.as_str(), "::");
                self.test_runs = retain_runs(
                    runs,
                    Ghost(keeps_without_prefix(prefix@)),
                    true,
                    &prefix,
                    &self.examples,
                );
            },
            ScriptChangeKind::TestSuiteUpdated { suite_id, .. } => {
                let head = concat2(change.example_id.as_str(), "::");
                let key = concat2(head.as_str(), suite_id.as_str());
                self.test_runs = retain_runs(
                    runs,
                    Ghost(keeps_without_key(key@)),
                    false,
                    &key,
                    &self.examples,
                );
            },
        }
        let message = describe_change(change);
        let ghost mid_console = self.console_entries@;
        self.push_console_entry(ConsoleEntry::log(message.clone()));
        proof {
            assert(console_model(mid_console.push(ConsoleEntry { kind: ConsoleKind::Log, message }))
                =~= console_model(old(self).console_entries@).push(
                (ConsoleKind::Log, describe_change_spec(change@)),
            ));
            lemma_console_model_capped(
                mid_console.push(ConsoleEntry { kind: ConsoleKind::Log, message }),
            );
        }
        self.push_snackbar(message, SnackbarKind::Info, now_ms);
        proof {
            assert(snackbars_model(final(self).snackbars@) =~= snackbars_model(
                old(self).snackbars@,
            ).push((describe_change_spec(change@), SnackbarKind::Info, now_ms, 4000u64)));
        }
    }

    /// Handles a batch of detected changes: each is recorded, noted, and
    /// queued as a hot-reload notice; the notices are then pruned.
    pub fn handle_script_changes(&mut self, changes: Vec<ScriptChange>, now_ms: u64)
        ensures
            *final(self) == (ExplorerApp {
                test_runs: final(self).test_runs,
                console_entries: final(self).console_entries,
                snackbars: final(self).snackbars,
                hot_reload_notices: final(self).hot_reload_notices,
                ..*old(self)
            }),
            final(self).hot_reload_notices@.len() <= 20,
            notices_model(final(self).hot_reload_notices@) == capped_changes(
                (notices_model(old(self).hot_reload_notices@) + changes_model(changes@)).filter(
                    change_current(examples_model(old(self).examples@)),
                ),
            ),
            console_model(final(self).console_entries@) == console_after_changes(
                console_model(old(self).console_entries@),
                changes_model(changes@),
            ),
            snackbars_model(final(self).snackbars@) == snackbars_model(old(self).snackbars@)
                + snackbar_batch(changes_model(changes@), now_ms),
    {
        let ghost all = changes@;
        let n = changes.len();
        let mut remaining = changes;
        let mut i: usize = 0;
        proof {
            assert(self.hot_reload_notices@ =~= old(self).hot_reload_notices@ + all.take(
                0,
            ).map_values(|c: ScriptChange| HotReloadNotice { change: c }));
            assert(console_model(self.console_entries@) =~= console_after_changes(
                console_model(old(self).console_entries@),
                changes_model(all.take(0)),
            ));
            assert(snackbars_model(self.snackbars@) =~= snackbars_model(old(self).snackbars@)
                + snackbar_batch(changes_model(all.take(0)), now_ms));
        }
        while i < n
            invariant
                i <= n,
                n == all.len(),
                remaining@ == all.skip(i as int),
                self.hot_reload_notices@ == old(self).hot_reload_notices@ + all.take(
                    i as int,
                ).map_values(|c: ScriptChange| HotReloadNotice { change: c }),
                console_model(self.console_entries@) == console_after_changes(
                    console_model(old(self).console_entries@),
                    changes_model(all.take(i as int)),
                ),
                snackbars_model(self.snackbars@) == snackbars_model(old(self).snackbars@)
                    + snackbar_batch(changes_model(all.take(i as int)), now_ms),
                *self == (ExplorerApp {
                    test_runs: self.test_runs,
                    console_entries: self.console_entries,
                    snackbars: self.snackbars,
                    hot_reload_notices: self.hot_reload_notices,
                    ..*old(self)
                }),
            decreases n - i,
        {
            let ghost pre_rem = remaining@;
            let ghost pre_console = console_model(self.console_entries@);
            let ghost pre_snackbars = snackbars_model(self.snackbars@);
            let ghost pre_notices = self.hot_reload_notices@;
            let change = remaining.remove(0);
            proof {
                assert(change == all[i as int]);
                assert(pre_rem.drop_first() =~= all.skip(i as int + 1));
                assert(all.take(i as int + 1).drop_last() =~= all.take(i as int));
                assert(all.take(i as int + 1).last() == all[i as int]);
                assert(changes_model(all.take(i as int + 1)).drop_last() =~= changes_model(
                    all.take(i as int),
                ));
                assert(changes_model(all.take(i as int + 1)).last() == all[i as int]@);
            }
            self.on_script_change(&change, now_ms);
            self.hot_reload_notices.push(HotReloadNotice { change });
            i = i + 1;
            proof {
                assert(self.hot_reload_notices@ =~= old(self).hot_reload_notices@ + all.take(
                    i as int,
                ).map_values(|c: ScriptChange| HotReloadNotice { change: c }));
                assert(snackbars_model(self.snackbars@) =~= snackbars_model(old(self).snackbars@)
                    + snackbar_batch(changes_model(all.take(i as int)), now_ms));
            }
        }
        proof {
            assert(all.take(n as int) =~= all);
        }
        let ghost before_prune = self.hot_reload_notices@;
        self.prune_hot_reload_notices();
        proof {
            lemma_notices_model_filter(before_prune, examples_model(old(self).examples@));
            lemma_notices_model_capped(
                before_prune.filter(notice_current(examples_model(old(self).examples@))),
            );
            assert(notices_model(before_prune) =~= notices_model(old(self).hot_reload_notices@)
                + changes_model(all));
        }
    }

    /// Forgets the test runs whose example or suite no longer exists.
    pub fn prune_test_runs(&mut self)
        ensures
            *final(self) == (ExplorerApp { test_runs: final(self).test_runs, ..*old(self) }),
            final(self).test_runs@ == old(self).test_runs@.filter(
                keeps_current(examples_model(old(self).examples@)),
            ),
    {
        let mut runs: Vec<(String, TestSuiteResult)> = Vec::new();
        core::mem::swap(&mut runs, &mut self.test_runs);
        self.test_runs = retain_current_runs(runs, &self.examples);
    }

    /// Discards notices about examples that no longer exist, and keeps at
    /// most the twenty most recent of the rest.
    pub fn prune_hot_reload_notices(&mut self)
        ensures
            *final(self) == (ExplorerApp {
                hot_reload_notices: final(self).hot_reload_notices,
                ..*old(self)
            }),
            final(self).hot_reload_notices@ == capped_notices(
                old(self).hot_reload_notices@.filter(
                    notice_current(examples_model(old(self).examples@)),
                ),
            ),
            final(self).hot_reload_notices@.len() <= 20,
    {
        let mut notices: Vec<HotReloadNotice> = Vec::new();
        core::mem::swap(&mut notices, &mut self.hot_reload_notices);
        let mut kept = retain_current_notices(notices, &self.examples);
        let ghost filtered = kept@;
        if kept.len() > 20 {
            let excess = kept.len() - 20;
            let mut k: usize = 0;
            while k < excess
                invariant
                    k <= excess,
                    excess == filtered.len() - 20,
                    kept@ == filtered.skip(k as int),
                decreases excess - k,
            {
                let ghost pre = kept@;
                kept.remove(0);
                proof {
                    assert(pre.drop_first() =~= filtered.skip(k as int + 1));
                }
                k = k + 1;
            }
        }
        self.hot_reload_notices = kept;
    }

    /// Selects an example: a repeated selection is a no-op, a new one resets
    /// the input defaults when the example exists and notes the selection.
    pub fn select_example(&mut self, example_id: &str, now_ms: u64)
        ensures
            *final(self) == (ExplorerApp {
                selected_example_id: final(self).selected_example_id,
                input_values: final(self).input_values,
                snackbars: final(self).snackbars,
                ..*old(self)
            }),
            match old(self).selected_example_id {
                Some(sel) => sel@ == example_id@ ==> *final(self) == *old(self),
                None => true,
            },
            (match old(self).selected_example_id {
                Some(sel) => sel@ != example_id@,
                None => true,
            }) ==> ({
                &&& (final(self).selected_example_id matches Some(s) && s@ == example_id@)
                &&& snackbars_model(final(self).snackbars@) == snackbars_model(
                    old(self).snackbars@,
                ).push(("Example selected"@, SnackbarKind::Info, now_ms, 4000u64))
                &&& (spec_find_example(examples_model(old(self).examples@), example_id@)
                    matches Some(e) ==> pairs_model(final(self).input_values@) == default_inputs(
                    e.metadata.inputs,
                ))
            }),
    {
        let id_owned = example_id.to_owned();
        match &self.selected_example_id {
            Some(sel) => {
                if *sel == id_owned {
                    return;
                }
            },
            None => {},
        }
        self.selected_example_id = Some(id_owned);
        proof {
            assert(self.examples@.skip(0) =~= self.examples@);
        }
        let found = crate::repo::find_example_from(&self.examples, 0, &example_id.to_owned());
        match found {
            Some(example) => {
                let metadata = example.metadata;
                self.apply_input_defaults(&metadata);
            },
            None => {},
        }
        self.push_snackbar("Example selected".to_owned(), SnackbarKind::Info, now_ms);
        proof {
            assert(snackbars_model(self.snackbars@) =~= snackbars_model(
                old(self).snackbars@,
            ).push(("Example selected"@, SnackbarKind::Info, now_ms, 4000u64)));
        }
    }

    /// Repairs the state after the example set changed: a vanished selection
    /// falls back to the first example, the selected example's input defaults
    /// are re-applied, stale test runs and notices are pruned, and - when the
    /// change came from the watcher with hot reload on and the selection
    /// survived - a hot-reload run is queued.
    pub fn on_examples_changed(&mut self, triggered_by_watch: bool)
        ensures
            *final(self) == (ExplorerApp {
                selected_example_id: final(self).selected_example_id,
                input_values: final(self).input_values,
                pending_hot_reload_run: final(self).pending_hot_reload_run,
                test_runs: final(self).test_runs,
                hot_reload_notices: final(self).hot_reload_notices,
                has_loaded_examples_once: final(self).has_loaded_examples_once,
                ..*old(self)
            }),
            final(self).has_loaded_examples_once,
            (final(self).selected_example_id is None) ==> final(self).examples@.len() == 0,
            final(self).test_runs@ == old(self).test_runs@.filter(
                keeps_current(examples_model(old(self).examples@)),
            ),
            notices_model(final(self).hot_reload_notices@) == capped_changes(
                notices_model(old(self).hot_reload_notices@).filter(
                    change_current(examples_model(old(self).examples@)),
                ),
            ),
            ({
                let m = examples_model(old(self).examples@);
                let survives = match old(self).selected_example_id {
                    Some(id) => spec_has_example(m, id@),
                    None => false,
                };
                &&& survives ==> final(self).selected_example_id == old(self).selected_example_id
                &&& (!survives && m.len() > 0) ==> (final(self).selected_example_id matches Some(s)
                    && s@ == model_id(m[0]))
                &&& (!survives && m.len() == 0) ==> final(self).selected_example_id is None
                &&& final(self).pending_hot_reload_run == (old(self).pending_hot_reload_run || (
                triggered_by_watch && old(self).has_loaded_examples_once
                    && old(self).hot_reload_enabled && survives))
            }),
            final(self).selected_example_id matches Some(s) ==> (spec_find_example(
                examples_model(old(self).examples@),
                s@,
            ) matches Some(e) ==> pairs_model(final(self).input_values@) == default_inputs(
                e.metadata.inputs,
            )),
    {
        let ghost m = examples_model(self.examples@);
        let previous_selection: Option<String> = match &self.selected_example_id {
            Some(sel) => Some(sel.clone()),
            None => None,
        };
        let still_there: bool = match &self.selected_example_id {
            Some(sel) => {
                proof {
                    assert(self.examples@.skip(0) =~= self.examples@);
                }
                match crate::repo::find_example_from(&self.examples, 0, sel) {
                    Some(_) => true,
                    None => false,
                }
            },
            None => false,
        };
        proof {
            if !still_there {
                match &self.selected_example_id {
                    Some(sel) => {
                        crate::repo::lemma_find_example_absent(m, sel@);
                    },
                    None => {},
                }
            }
        }
        if !still_there {
            self.selected_example_id = None;
        }
        if self.selected_example_id.is_none() && self.examples.len() > 0 {
            self.selected_example_id = Some(self.examples[0].metadata.id.clone());
            proof {
                assert(m[0] == self.examples@[0]@);
            }
        }
        match &self.selected_example_id {
            Some(sel) => {
                proof {
                    assert(self.examples@.skip(0) =~= self.examples@);
                }
                match crate::repo::find_example_from(&self.examples, 0, sel) {
                    Some(example) => {
                        let metadata = example.metadata;
                        self.apply_input_defaults(&metadata);
                    },
                    None => {},
                }
            },
            None => {},
        }
        if triggered_by_watch && self.has_loaded_examples_once && self.hot_reload_enabled {
            let kept: bool = match (&previous_selection, &self.selected_example_id) {
                (Some(previous), Some(current)) => *previous == *current,
                _ => false,
            };
            proof {
                match (&previous_selection, &self.selected_example_id) {
                    (Some(previous), Some(current)) => {
                        if spec_find_example(m, previous@) is None && m.len() > 0 {
                            crate::repo::lemma_find_example_absent(m, previous@);
                            assert(current@ == model_id(m[0]));
                        }
                    },
                    _ => {},
                }
            }
            if kept {
                self.pending_hot_reload_run = true;
            }
        }
        self.prune_test_runs();
        let ghost before_prune = self.hot_reload_notices@;
        self.prune_hot_reload_notices();
        proof {
            lemma_notices_model_filter(before_prune, m);
            lemma_notices_model_capped(before_prune.filter(notice_current(m)));
        }
        self.has_loaded_examples_once = true;
    }

    /// Brings the state in line with the repository when watching is on:
    /// a generation newer than the one on display is adopted - examples and
    /// version synced to the repository - and the pending change records are
    /// drained and handled, joining the notices when their examples still
    /// exist. With watching off, or without a repository, nothing happens.
    pub fn ensure_examples_current(&mut self, now_ms: u64)
        ensures
            !old(self).watch_mode_enabled ==> *final(self) == *old(self),
            old(self).example_library is None ==> *final(self) == *old(self),
            final(self).watch_mode_enabled == old(self).watch_mode_enabled,
            old(self).watch_mode_enabled ==> (old(self).example_library matches Some(lib) ==> ({
                let m_old = examples_model(old(self).examples@);
                let synced = lib@.version != old(self).examples_version;
                let m_after = if synced {
                    lib@.examples
                } else {
                    m_old
                };
                let base = if synced {
                    capped_changes(
                        notices_model(old(self).hot_reload_notices@).filter(
                            change_current(m_after),
                        ),
                    )
                } else {
                    notices_model(old(self).hot_reload_notices@)
                };
                &&& (final(self).example_library matches Some(lib2) && lib2@.examples
                    == lib@.examples && lib2@.version == lib@.version && lib2@.pending.len() == 0)
                &&& final(self).examples_version == lib@.version
                &&& examples_model(final(self).examples@) == m_after
                &&& notices_model(final(self).hot_reload_notices@) == handled_notice_models(
                    base,
                    lib@.pending,
                    m_after,
                )
            })),
    {
        if !self.watch_mode_enabled {
            return;
        }
        if self.example_library.is_none() {
            return;
        }
        let (version, changed): (usize, bool) = match &self.example_library {
            Some(lib) => (lib.version(), lib.version() != self.examples_version),
            None => (0, false),
        };
        if changed {
            let snapshot: Vec<Example> = match &self.example_library {
                Some(lib) => lib.snapshot(),
                None => Vec::new(),
            };
            self.examples = snapshot;
            self.examples_version = version;
            self.on_examples_changed(true);
        }
        let changes: Vec<ScriptChange> = match &mut self.example_library {
            Some(lib) => lib.take_recent_changes(),
            None => Vec::new(),
        };
        if changes.len() > 0 {
            self.handle_script_changes(changes, now_ms);
        } else {
            proof {
                assert(changes_model(changes@) =~= Seq::<ChangeModel>::empty());
            }
        }
    }

    /// Reloads the repository from a fresh scan and adopts the new
    /// generation: the repository's version increments - it is a generation
    /// counter, so it moves even for a byte-identical scan - its stored
    /// examples become the scan, the detected change records are handled,
    /// and the refresh is notified. With no repository this is a no-op.
    pub fn refresh_examples_from_library(&mut self, scan: Vec<Example>, now_ms: u64)
        requires
            match old(self).example_library {
                Some(lib) => lib@.version < usize::MAX,
                None => true,
            },
        ensures
            old(self).example_library is None ==> *final(self) == *old(self),
            old(self).example_library matches Some(lib) ==> ({
                let scan_m = examples_model(scan@);
                let drained = lib@.pending + crate::repo::spec_diff(lib@.examples, scan_m, now_ms);
                let base = capped_changes(
                    notices_model(old(self).hot_reload_notices@).filter(change_current(scan_m)),
                );
                &&& (final(self).example_library matches Some(lib2) && lib2@.version
                    == lib@.version + 1 && lib2@.examples == scan_m && lib2@.pending.len() == 0)
                &&& final(self).examples_version == lib@.version + 1
                &&& examples_model(final(self).examples@) == scan_m
                &&& notices_model(final(self).hot_reload_notices@) == handled_notice_models(
                    base,
                    drained,
                    scan_m,
                )
                &&& snackbars_model(final(self).snackbars@) == snackbars_model(
                    old(self).snackbars@,
                ) + (if drained.len() == 0 {
                    Seq::empty()
                } else {
                    snackbar_batch(drained, now_ms)
                }).push(("Example catalog refreshed"@, SnackbarKind::Info, now_ms, 4000u64))
            }),
    {
        if self.example_library.is_none() {
            return;
        }
        match &mut self.example_library {
            Some(lib) => {
                lib.refresh(scan, now_ms);
            },
            None => {},
        }
        let (snapshot, version): (Vec<Example>, usize) = match &self.example_library {
            Some(lib) => (lib.snapshot(), lib.version()),
            None => (Vec::new(), 0),
        };
        self.examples = snapshot;
        self.examples_version = version;
        self.on_examples_changed(false);
        let changes: Vec<ScriptChange> = match &mut self.example_library {
            Some(lib) => lib.take_recent_changes(),
            None => Vec::new(),
        };
        let ghost drained = changes_model(changes@);
        if changes.len() > 0 {
            self.handle_script_changes(changes, now_ms);
        } else {
            proof {
                assert(drained =~= Seq::<ChangeModel>::empty());
            }
        }
        let ghost sb_before_push = snackbars_model(self.snackbars@);
        self.push_snackbar("Example catalog refreshed".to_owned(), SnackbarKind::Info, now_ms);
        proof {
            let note = ("Example catalog refreshed"@, SnackbarKind::Info, now_ms, 4000u64);
            assert(snackbars_model(self.snackbars@) =~= sb_before_push.push(note));
            assert(sb_before_push =~= snackbars_model(old(self).snackbars@) + (if drained.len()
                == 0 {
                Seq::empty()
            } else {
                snackbar_batch(drained, now_ms)
            }));
            assert(snackbars_model(self.snackbars@) =~= snackbars_model(old(self).snackbars@) + (
            if drained.len() == 0 {
                Seq::empty()
            } else {
                snackbar_batch(drained, now_ms)
            }).push(note));
        }
    }

    /// Adopts the rescan that follows an applied revert: the repository
    /// reloads - its version still increments - but the mirror change records
    /// that reverting the file produced are discarded rather than queued as
    /// fresh notices, and the completed revert is notified.
    pub fn adopt_revert_rescan(&mut self, scan: Vec<Example>, now_ms: u64)
        requires
            match old(self).example_library {
                Some(lib) => lib@.version < usize::MAX,
                None => true,
            },
        ensures
            old(self).example_library is None ==> *final(self) == *old(self),
            old(self).example_library matches Some(lib) ==> ({
                let scan_m = examples_model(scan@);
                &&& (final(self).example_library matches Some(lib2) && lib2@.version
                    == lib@.version + 1 && lib2@.examples == scan_m && lib2@.pending.len() == 0)
                &&& final(self).examples_version == lib@.version + 1
                &&& examples_model(final(self).examples@) == scan_m
                &&& notices_model(final(self).hot_reload_notices@) == capped_changes(
                    notices_model(old(self).hot_reload_notices@).filter(change_current(scan_m)),
                )
                &&& snackbars_model(final(self).snackbars@) == snackbars_model(
                    old(self).snackbars@,
                ).push(("Change reverted"@, SnackbarKind::Success, now_ms, 4000u64))
            }),
    {
        if self.example_library.is_none() {
            return;
        }
        match &mut self.example_library {
            Some(lib) => {
                lib.refresh(scan, now_ms);
            },
            None => {},
        }
        let (snapshot, version): (Vec<Example>, usize) = match &self.example_library {
            Some(lib) => (lib.snapshot(), lib.version()),
            None => (Vec::new(), 0),
        };
        self.examples = snapshot;
        self.examples_version = version;
        self.on_examples_changed(false);
        let _discarded: Vec<ScriptChange> = match &mut self.example_library {
            Some(lib) => lib.take_recent_changes(),
            None => Vec::new(),
        };
        self.push_snackbar("Change reverted".to_owned(), SnackbarKind::Success, now_ms);
        proof {
            assert(snackbars_model(self.snackbars@) =~= snackbars_model(
                old(self).snackbars@,
            ).push(("Change reverted"@, SnackbarKind::Success, now_ms, 4000u64)));
        }
    }

    /// The sidebar rows, grouped by category - an example without categories
    /// goes under `Uncategorized`, one with several appears once per
    /// category - with only the examples that pass the filters, and the
    /// groups sorted by category name. Every returned group is non-empty.
    pub fn grouped_examples(&self) -> (r: Vec<(String, Vec<ExampleListEntry>)>)
        ensures
            forall|g: int| 0 <= g < r@.len() ==> (#[trigger] r@[g]).1@.len() > 0,
            group_names_sorted(r@),
            distinct_group_names(r@),
            groups_entries_ok(
                r@,
                group_entry_ok(
                    examples_model(self.examples@),
                    self.category_filters.deep_view(),
                    self.search_query@,
                ),
            ),
    {
        let ghost m = examples_model(self.examples@);
        let ghost ok = group_entry_ok(m, self.category_filters.deep_view(), self.search_query@);
        let mut groups: Vec<(String, Vec<ExampleListEntry>)> = Vec::new();
        let mut i: usize = 0;
        while i < self.examples.len()
            invariant
                m == examples_model(self.examples@),
                ok == group_entry_ok(
                    m,
                    self.category_filters.deep_view(),
                    self.search_query@,
                ),
                forall|g: int| 0 <= g < groups@.len() ==> (#[trigger] groups@[g]).1@.len() > 0,
                groups_entries_ok(groups@, ok),
                distinct_group_names(groups@),
            decreases self.examples@.len() - i,
        {
            let example = &self.examples[i];
            proof {
                assert(m[i as int] == self.examples@[i as int]@);
            }
            if self.passes_filters(example) {
                let entry_template = ExampleListEntry {
                    id: example.metadata.id.clone(),
                    title: example.metadata.title.clone(),
                    note: crate::harness::clone_opt_string(&example.metadata.note),
                };
                if example.metadata.categories.len() == 0 {
                    let entry = ExampleListEntry {
                        id: entry_template.id.clone(),
                        title: entry_template.title.clone(),
                        note: crate::harness::clone_opt_string(&entry_template.note),
                    };
                    let name = "Uncategorized".to_owned();
                    proof {
                        let e = m[i as int];
                        assert(ok(name@, entry)) by {
                            assert(passes_filters_spec(
                                e,
                                self.category_filters.deep_view(),
                                self.search_query@,
                            ) && entry.id@ == e.metadata.id && entry.title@ == e.metadata.title
                                && opt_text(entry.note) == e.metadata.note
                                && e.metadata.categories.len() == 0 && name@ == "Uncategorized"@);
                        }
                    }
                    push_group_entry(&mut groups, name, entry, Ghost(ok));
                } else {
                    let mut c: usize = 0;
                    while c < example.metadata.categories.len()
                        invariant
                            i < self.examples@.len(),
                            example == &self.examples@[i as int],
                            m == examples_model(self.examples@),
                            m[i as int] == self.examples@[i as int]@,
                            ok == group_entry_ok(
                                m,
                                self.category_filters.deep_view(),
                                self.search_query@,
                            ),
                            passes_filters_spec(
                                m[i as int],
                                self.category_filters.deep_view(),
                                self.search_query@,
                            ),
                            entry_template.id@ == m[i as int].metadata.id,
                            entry_template.title@ == m[i as int].metadata.title,
                            opt_text(entry_template.note) == m[i as int].metadata.note,
                            forall|g: int|
                                0 <= g < groups@.len() ==> (#[trigger] groups@[g]).1@.len() > 0,
                            groups_entries_ok(groups@, ok),
                            distinct_group_names(groups@),
                        decreases example.metadata.categories@.len() - c,
                    {
                        let entry = ExampleListEntry {
                            id: entry_template.id.clone(),
                            title: entry_template.title.clone(),
                            note: crate::harness::clone_opt_string(&entry_template.note),
                        };
                        let name = example.metadata.categories[c].clone();
                        proof {
                            assert(m[i as int].metadata.categories[c as int]
                                == example.metadata.categories@[c as int]@);
                            assert(m[i as int].metadata.categories.contains(name@));
                            assert(ok(name@, entry));
                        }
                        push_group_entry(&mut groups, name, entry, Ghost(ok));
                        c = c + 1;
                    }
                }
            }
            i = i + 1;
        }
        sort_groups_by_name(groups, Ghost(ok))
    }

    /// Runs one suite for an example, switches to the tests pane, notes the
    /// outcome in the console and as a notification, and records the result
    /// under the example's and suite's ids - a harness error clears any
    /// recorded result instead. The stored result, when there is one, has the
    /// harness's guarantees: its pass flag is the conjunction of its case
    /// statuses and its total duration their saturating sum; the notification
    /// is a success exactly when the stored run passed.
    pub fn run_suite_for_example(
        &mut self,
        example: &Example,
        suite: &ExampleTestSuite,
        now_ms: u64,
    )
        ensures
            *final(self) == (ExplorerApp {
                active_console_pane: final(self).active_console_pane,
                console_entries: final(self).console_entries,
                snackbars: final(self).snackbars,
                test_runs: final(self).test_runs,
                ..*old(self)
            }),
            final(self).active_console_pane == ConsolePane::Tests,
            final(self).snackbars@.len() == old(self).snackbars@.len() + 1,
            ({
                let key = example@.metadata.id + "::"@ + suite@.id;
                let cleared = old(self).test_runs@.filter(keeps_without_key(key));
                let runs = final(self).test_runs@;
                let last_note = snackbars_model(final(self).snackbars@).last();
                if runs.len() == cleared.len() + 1 {
                    &&& runs.drop_last() == cleared
                    &&& runs.last().0@ == key
                    &&& runs.last().1.suite_id@ == suite@.id
                    &&& runs.last().1.suite_name@ == suite@.name
                    &&& runs.last().1.passed == crate::harness::all_cases_passed(
                        runs.last().1.cases@,
                    )
                    &&& runs.last().1.total_duration_ms == crate::harness::sum_durations_sat(
                        runs.last().1.cases@,
                    )
                    &&& last_note == (
                        suite_summary_text(suite@.name, runs.last().1),
                        if runs.last().1.passed {
                            SnackbarKind::Success
                        } else {
                            SnackbarKind::Error
                        },
                        now_ms,
                        4000u64,
                    )
                } else {
                    &&& runs == cleared
                    &&& last_note == (
                        "Test suite failed to run"@,
                        SnackbarKind::Error,
                        now_ms,
                        4000u64,
                    )
                }
            }),
    {
        let head = concat2(example.metadata.id.as_str(), "::");
        let key = concat2(head.as_str(), suite.id.as_str());
        self.active_console_pane = ConsolePane::Tests;
        let intro_head = concat2("Running suite '", suite.name.as_str());
        let intro_mid = concat2("' for '", example.metadata.title.as_str());
        let intro = concat2(
            intro_head.as_str(),
            concat2(intro_mid.as_str(), "'").as_str(),
        );
        self.push_console_entry(ConsoleEntry::info(intro));
        match run_suite(suite) {
            Ok(result) => {
                let passed_count = Self::count_passed_cases(&result.cases);
                let total: u64 = result.cases.len() as u64;
                let mut message_chars: Vec<char> = Vec::new();
                push_str_chars(&mut message_chars, "Suite '");
                push_str_chars(&mut message_chars, suite.name.as_str());
                push_str_chars(&mut message_chars, "' finished: ");
                let passed_digits = decimal_chars(passed_count);
                push_chars(&mut message_chars, passed_digits.as_slice());
                push_str_chars(&mut message_chars, "/");
                let total_digits = decimal_chars(total);
                push_chars(&mut message_chars, total_digits.as_slice());
                push_str_chars(&mut message_chars, " cases passed (");
                let duration_digits = decimal_chars(result.total_duration_ms);
                push_chars(&mut message_chars, duration_digits.as_slice());
                push_str_chars(&mut message_chars, " ms)");
                let message = string_from_chars(&message_chars);
                proof {
                    assert(message@ =~= suite_summary_text(suite@.name, result));
                }
                if result.passed {
                    self.push_console_entry(ConsoleEntry::info(message.clone()));
                    self.push_snackbar(message, SnackbarKind::Success, now_ms);
                } else {
                    self.push_console_entry(ConsoleEntry::error(message.clone()));
                    self.push_snackbar(message, SnackbarKind::Error, now_ms);
                }
                self.record_test_run(key, result);
            },
            Err(error) => {
                let note = concat2("Failed to run suite: ", error.message().as_str());
                self.push_console_entry(ConsoleEntry::error(note));
                self.push_snackbar(
                    "Test suite failed to run".to_owned(),
                    SnackbarKind::Error,
                    now_ms,
                );
                let mut runs: Vec<(String, TestSuiteResult)> = Vec::new();
                core::mem::swap(&mut runs, &mut self.test_runs);
                self.test_runs = retain_runs(
                    runs,
                    Ghost(keeps_without_key(key@)),
                    false,
                    &key,
                    &self.examples,
                );
                proof {
                    assert(old(self).test_runs@.filter(keeps_without_key(key@)).len()
                        <= old(self).test_runs@.len()) by {
                        old(self).test_runs@.lemma_filter_len(keeps_without_key(key@));
                    }
                }
            },
        }
    }

    /// How many cases of a run passed.
    fn count_passed_cases(cases: &Vec<TestCaseResult>) -> (r: u64)
        ensures
            r as nat == passed_count_spec(cases@),
            r <= cases@.len(),
    {
        let mut passed_count: u64 = 0;
        let mut c: usize = 0;
        proof {
            assert(cases@.take(0) =~= Seq::<TestCaseResult>::empty());
        }
        while c < cases.len()
            invariant
                c <= cases@.len(),
                passed_count <= c,
                passed_count as nat == passed_count_spec(cases@.take(c as int)),
            decreases cases@.len() - c,
        {
            proof {
                assert(cases@.take(c as int + 1).drop_last() =~= cases@.take(c as int));
                assert(cases@.take(c as int + 1).last() == cases@[c as int]);
            }
            if cases[c].status == crate::harness::TestStatus::Passed {
                passed_count = passed_count + 1;
            }
            c = c + 1;
        }
        proof {
            assert(cases@.take(cases@.len() as int) =~= cases@);
        }
        passed_count
    }

    /// Records one suite result under its key, replacing a previous run.
    fn record_test_run(&mut self, key: String, result: TestSuiteResult)
        ensures
            *final(self) == (ExplorerApp { test_runs: final(self).test_runs, ..*old(self) }),
            final(self).test_runs@ == old(self).test_runs@.filter(
                keeps_without_key(key@),
            ).push((key, result)),
    {
        let mut runs: Vec<(String, TestSuiteResult)> = Vec::new();
        core::mem::swap(&mut runs, &mut self.test_runs);
        let mut kept = retain_runs(
            runs,
            Ghost(keeps_without_key(key@)),
            false,
            &key,
            &self.examples,
        );
        kept.push((key, result));
        self.test_runs = kept;
    }

    /// Runs every suite of an example in order, then notes the overall
    /// outcome. With no suites this is a no-op.
    pub fn run_all_suites(&mut self, example: &Example, now_ms: u64)
        ensures
            example.test_suites@.len() == 0 ==> *final(self) == *old(self),
            *final(self) == (ExplorerApp {
                active_console_pane: final(self).active_console_pane,
                console_entries: final(self).console_entries,
                snackbars: final(self).snackbars,
                test_runs: final(self).test_runs,
                ..*old(self)
            }),
            example.test_suites@.len() > 0 ==> final(self).active_console_pane
                == ConsolePane::Tests,
    {
        if example.test_suites.len() == 0 {
            return;
        }
        self.active_console_pane = ConsolePane::Tests;
        let count_digits = decimal_chars(example.test_suites.len() as u64);
        let mut intro_chars: Vec<char> = Vec::new();
        push_str_chars(&mut intro_chars, "Running ");
        push_chars(&mut intro_chars, count_digits.as_slice());
        push_str_chars(&mut intro_chars, " suites for '");
        push_str_chars(&mut intro_chars, example.metadata.title.as_str());
        push_str_chars(&mut intro_chars, "'");
        self.push_console_entry(ConsoleEntry::info(string_from_chars(&intro_chars)));
        let mut any_failed = false;
        let mut s: usize = 0;
        while s < example.test_suites.len()
            invariant
                self.active_console_pane == ConsolePane::Tests,
                *self == (ExplorerApp {
                    active_console_pane: self.active_console_pane,
                    console_entries: self.console_entries,
                    snackbars: self.snackbars,
                    test_runs: self.test_runs,
                    ..*old(self)
                }),
            decreases example.test_suites@.len() - s,
        {
            let suite = example.test_suites[s].clone();
            self.run_suite_for_example(example, &suite, now_ms);
            let head = concat2(example.metadata.id.as_str(), "::");
            let key = concat2(head.as_str(), suite.id.as_str());
            let mut r: usize = 0;
            while r < self.test_runs.len()
                decreases self.test_runs@.len() - r,
            {
                if self.test_runs[r].0 == key {
                    if !self.test_runs[r].1.passed {
                        any_failed = true;
                    }
                }
                r = r + 1;
            }
            s = s + 1;
        }
        let summary: String = if any_failed {
            let head = concat2("Finished running suites for '", example.metadata.title.as_str());
            concat2(head.as_str(), "' with failures")
        } else {
            let head = concat2("All suites for '", example.metadata.title.as_str());
            concat2(head.as_str(), "' passed")
        };
        if any_failed {
            self.push_console_entry(ConsoleEntry::error(summary.clone()));
            self.push_snackbar(summary, SnackbarKind::Error, now_ms);
        } else {
            self.push_console_entry(ConsoleEntry::info(summary.clone()));
            self.push_snackbar(summary, SnackbarKind::Success, now_ms);
        }
    }

    /// Plans the filesystem action that undoes one change and notes it; the
    /// caller applies the action, rescans the tree, and hands the scan to
    /// [`Self::adopt_revert_rescan`], which absorbs the revert's own mirror
    /// change records. Without a repository nothing is planned and the
    /// failure is noted instead.
    pub fn revert_script_change(&mut self, change: &ScriptChange, now_ms: u64) -> (r: Option<
        RevertAction,
    >)
        ensures
            *final(self) == (ExplorerApp {
                console_entries: final(self).console_entries,
                snackbars: final(self).snackbars,
                ..*old(self)
            }),
            old(self).example_library is None ==> r is None && snackbars_model(
                final(self).snackbars@,
            ) == snackbars_model(old(self).snackbars@).push(
                ("Revert not available"@, SnackbarKind::Error, now_ms, 4000u64),
            ),
            old(self).example_library is Some ==> final(self).snackbars == old(self).snackbars,
            old(self).example_library is Some ==> match crate::repo::change_previous(
                change@.kind,
            ) {
                Some(p) => r matches Some(a) && (a matches RevertAction::Restore { path, contents }
                    && path@ == change@.path && contents@ == p),
                None => r matches Some(a) && (a matches RevertAction::Remove { path } && path@
                    == change@.path),
            },
    {
        if self.example_library.is_none() {
            self.push_console_entry(
                ConsoleEntry::error(
                    "Example library is unavailable; cannot revert change".to_owned(),
                ),
            );
            self.push_snackbar("Revert not available".to_owned(), SnackbarKind::Error, now_ms);
            proof {
                assert(snackbars_model(self.snackbars@) =~= snackbars_model(
                    old(self).snackbars@,
                ).push(("Revert not available"@, SnackbarKind::Error, now_ms, 4000u64)));
            }
            return None;
        }
        let action: Option<RevertAction> = match &self.example_library {
            Some(lib) => Some(lib.revert_change(change)),
            None => None,
        };
        let note = concat2("Reverted change: ", describe_change(change).as_str());
        self.push_console_entry(ConsoleEntry::info(note));
        action
    }

    /// The script a run uses: the example's text as-is when no inputs are
    /// declared, otherwise prefixed by a line that parses the current input
    /// values - encoded as a JSON object and escaped into a string literal -
    /// into an `input` binding.
    pub fn prepare_script(&self, example: &Example) -> (r: String)
        ensures
            self.input_values@.len() == 0 ==> r@ == example@.script,
            self.input_values@.len() > 0 ==> r@ == "import serde\ninput = serde.from_json(\""@
                + escape_literal_spec(json_of_pairs(pairs_model(self.input_values@)))
                + "\")\n"@ + example@.script,
    {
        if self.input_values.len() == 0 {
            return example.script.clone();
        }
        let json = pairs_to_json(&self.input_values);
        let json_chars = chars_of(json.as_str());
        let mut escaped: Vec<char> = Vec::new();
        escape_literal(&json_chars, 0, &mut escaped);
        proof {
            assert(json_chars@.skip(0) =~= json_chars@);
            assert(escaped@ =~= Seq::<char>::empty() + escape_literal_spec(json_chars@));
        }
        let mut out: Vec<char> = Vec::new();
        push_str_chars(&mut out, "import serde\ninput = serde.from_json(\"");
        push_chars(&mut out, escaped.as_slice());
        push_str_chars(&mut out, "\")\n");
        push_str_chars(&mut out, example.script.as_str());
        let r = string_from_chars(&out);
        proof {
            assert(r@ =~= "import serde\ninput = serde.from_json(\""@ + escape_literal_spec(
                json_of_pairs(pairs_model(self.input_values@)),
            ) + "\")\n"@ + example@.script);
        }
        r
    }

    /// Runs the selected example through the given executor: the prepared
    /// script is executed, its return value and captured output are written
    /// to the console, and the outcome is remembered and notified. With no
    /// selection only the failure is noted.
    pub fn run_selected_example(&mut self, executor: &mut Executor, now_ms: u64)
        ensures
            old(self).selected_example_id is None ==> final(self).last_execution
                == old(self).last_execution,
            final(executor)@ == (RuntimeModel {
                execution_limit_ms: final(executor)@.execution_limit_ms,
                ..old(executor)@
            }),
    {
        let example: Example = match self.selected_example() {
            Some(example) => example,
            None => {
                self.push_console_entry(ConsoleEntry::error("No example selected".to_owned()));
                self.push_snackbar(
                    "Select an example before running".to_owned(),
                    SnackbarKind::Error,
                    now_ms,
                );
                return;
            },
        };
        let script = self.prepare_script(&example);
        let intro = concat2(
            concat2("Running '", example.metadata.title.as_str()).as_str(),
            "'",
        );
        self.push_console_entry(ConsoleEntry::info(intro));
        match executor.execute_script(script.as_str()) {
            Ok(output) => {
                let mut had_output = false;
                match &output.return_value {
                    Some(value) => {
                        had_output = true;
                        self.push_console_entry(
                            ConsoleEntry::result(concat2("Return value: ", value.as_str())),
                        );
                    },
                    None => {},
                }
                if !output.stdout.as_str().is_empty() {
                    had_output = true;
                    self.push_console_entry(ConsoleEntry::stdout(output.stdout.clone()));
                }
                if !output.stderr.as_str().is_empty() {
                    had_output = true;
                    self.push_console_entry(ConsoleEntry::stderr(output.stderr.clone()));
                }
                if !had_output {
                    self.push_console_entry(
                        ConsoleEntry::info("Example executed with no output".to_owned()),
                    );
                }
                self.last_execution = Some(
                    ExecutionSummary {
                        duration_ms: output.duration_ms,
                        return_value: output.return_value,
                        succeeded: true,
                    },
                );
                self.push_snackbar(
                    "Example executed successfully".to_owned(),
                    SnackbarKind::Success,
                    now_ms,
                );
            },
            Err(error) => {
                self.push_console_entry(
                    ConsoleEntry::error(concat2("Execution error: ", error.message().as_str())),
                );
                self.last_execution = Some(
                    ExecutionSummary { duration_ms: 0, return_value: None, succeeded: false },
                );
                self.push_snackbar(
                    "Example execution failed".to_owned(),
                    SnackbarKind::Error,
                    now_ms,
                );
            },
        }
    }

    /// Drops the notifications whose display time has passed.
    pub fn expire_snackbars(&mut self, now_ms: u64)
        ensures
            final(self).snackbars@ == old(self).snackbars@.filter(snackbar_alive(now_ms)),
    {
        let ghost all = self.snackbars@;
        let ghost pred = snackbar_alive(now_ms);
        let mut remaining: Vec<Snackbar> = Vec::new();
        core::mem::swap(&mut remaining, &mut self.snackbars);
        let n = remaining.len();
        let mut kept: Vec<Snackbar> = Vec::new();
        let mut i: usize = 0;
        proof {
            reveal(Seq::filter);
            assert(all.take(0).filter(pred) =~= Seq::<Snackbar>::empty());
        }
        while i < n
            invariant
                i <= n,
                n == all.len(),
                remaining@ == all.skip(i as int),
                kept@ == all.take(i as int).filter(pred),
                pred == snackbar_alive(now_ms),
            decreases n - i,
        {
            let ghost pre = remaining@;
            let entry = remaining.remove(0);
            proof {
                assert(entry == all[i as int]);
                assert(pre.drop_first() =~= all.skip(i as int + 1));
            }
            let age = if now_ms >= entry.created_ms {
                now_ms - entry.created_ms
            } else {
                0
            };
            let keep = age < entry.duration_ms;
            proof {
                assert(keep == pred(entry));
                reveal(Seq::filter);
                assert(all.take(i as int + 1).drop_last() =~= all.take(i as int));
                assert(all.take(i as int + 1).last() == all[i as int]);
            }
            if keep {
                kept.push(entry);
            }
            i = i + 1;
        }
        proof {
            assert(all.take(n as int) =~= all);
        }
        self.snackbars = kept;
    }
}

/// Whether a notification is still within its display time.
pub open spec fn snackbar_alive(now_ms: u64) -> spec_fn(Snackbar) -> bool {
    |s: Snackbar|
        (if now_ms >= s.created_ms {
            now_ms - s.created_ms
        } else {
            0
        }) < s.duration_ms
}

/// A script-literal escape: backslashes and double quotes get a leading
/// backslash.
pub open spec fn escape_literal_spec(s: Seq<char>) -> Seq<char>
    decreases s.len(),
{
    if s.len() == 0 {
        s
    } else {
        let head: Seq<char> = if s[0] == '\\' {
            seq!['\\', '\\']
        } else if s[0] == '"' {
            seq!['\\', '"']
        } else {
            seq![s[0]]
        };
        head + escape_literal_spec(s.drop_first())
    }
}

/// Escapes the text from position `i` on, appending to `out`.
fn escape_literal(v: &Vec<char>, i: usize, out: &mut Vec<char>)
    requires
        i <= v@.len(),
    ensures
        final(out)@ == old(out)@ + escape_literal_spec(v@.skip(i as int)),
    decreases v@.len() - i,
{
    let ghost suffix = v@.skip(i as int);
    if i == v.len() {
        proof {
            assert(suffix =~= Seq::<char>::empty());
            assert(out@ =~= out@ + escape_literal_spec(suffix));
        }
    } else {
        let ghost pre = out@;
        let c = v[i];
        if c == '\\' {
            out.push('\\');
            out.push('\\');
        } else if c == '"' {
            out.push('\\');
            out.push('"');
        } else {
            out.push(c);
        }
        proof {
            assert(suffix[0] == v@[i as int]);
            assert(suffix.drop_first() =~= v@.skip(i as int + 1));
        }
        escape_literal(v, i + 1, out);
        proof {
            assert(out@ =~= pre + escape_literal_spec(suffix));
        }
    }
}

/// Appends one entry to the named group, creating the group at the end when
/// it does not exist yet; every group stays non-empty, group names stay
/// unique, and every entry keeps satisfying the row predicate.
fn push_group_entry(
    groups: &mut Vec<(String, Vec<ExampleListEntry>)>,
    name: String,
    entry: ExampleListEntry,
    ok: Ghost<spec_fn(Seq<char>, ExampleListEntry) -> bool>,
)
    requires
        forall|g: int| 0 <= g < old(groups)@.len() ==> (#[trigger] old(groups)@[g]).1@.len() > 0,
        groups_entries_ok(old(groups)@, ok@),
        distinct_group_names(old(groups)@),
        ok@(name@, entry),
    ensures
        forall|g: int| 0 <= g < final(groups)@.len() ==> (#[trigger] final(groups)@[g]).1@.len()
            > 0,
        groups_entries_ok(final(groups)@, ok@),
        distinct_group_names(final(groups)@),
{
    let ghost pre = groups@;
    let mut i: usize = 0;
    while i < groups.len()
        invariant
            i <= groups@.len(),
            groups@ == pre,
            forall|g: int| 0 <= g < groups@.len() ==> (#[trigger] groups@[g]).1@.len() > 0,
            groups_entries_ok(groups@, ok@),
            distinct_group_names(groups@),
            ok@(name@, entry),
            forall|j: int| 0 <= j < i as int ==> (#[trigger] groups@[j]).0@ != name@,
        decreases groups@.len() - i,
    {
        if groups[i].0 == name {
            let mut group = groups.remove(i);
            let ghost found = group;
            group.1.push(entry);
            let ghost grown = group;
            groups.insert(i, group);
            proof {
                assert(groups@ =~= pre.update(i as int, grown));
                assert(grown.0@ == name@);
                assert forall|g: int, k: int|
                    0 <= g < groups@.len() && 0 <= k < groups@[g].1@.len() implies ok@(
                    groups@[g].0@,
                    #[trigger] groups@[g].1@[k],
                ) by {
                    if g == i as int {
                        if k < found.1@.len() {
                            assert(grown.1@[k] == found.1@[k]);
                            assert(ok@(pre[g].0@, pre[g].1@[k]));
                        } else {
                            assert(grown.1@[k] == entry);
                        }
                    } else {
                        assert(groups@[g] == pre[g]);
                        assert(ok@(pre[g].0@, pre[g].1@[k]));
                    }
                }
                assert forall|a: int, b: int|
                    0 <= a < b < groups@.len() implies (#[trigger] groups@[a]).0@ != (
                #[trigger] groups@[b]).0@ by {
                    assert(groups@[a].0@ == pre[a].0@);
                    assert(groups@[b].0@ == pre[b].0@);
                }
            }
            return;
        }
        i = i + 1;
    }
    let mut members: Vec<ExampleListEntry> = Vec::new();
    members.push(entry);
    groups.push((name, members));
    proof {
        assert(groups@ =~= pre.push((name, members)));
        assert forall|g: int, k: int|
            0 <= g < groups@.len() && 0 <= k < groups@[g].1@.len() implies ok@(
            groups@[g].0@,
            #[trigger] groups@[g].1@[k],
        ) by {
            if g < pre.len() {
                assert(groups@[g] == pre[g]);
                assert(ok@(pre[g].0@, pre[g].1@[k]));
            } else {
                assert(groups@[g].1@[k] == entry);
            }
        }
        assert forall|a: int, b: int|
            0 <= a < b < groups@.len() implies (#[trigger] groups@[a]).0@ != (
        #[trigger] groups@[b]).0@ by {
            if b < pre.len() {
                assert(groups@[a] == pre[a]);
                assert(groups@[b] == pre[b]);
            } else {
                assert(groups@[a] == pre[a]);
                assert(groups@[b].0@ == name@);
            }
        }
    }
}

/// What a sidebar row may stand for: some example of the generation that
/// passes the filters, with matching id, title and note, filed under one of
/// its categories - or under `Uncategorized` when it has none.
pub open spec fn group_entry_ok(
    examples: Seq<ExampleModel>,
    filters: Seq<Seq<char>>,
    query: Seq<char>,
) -> spec_fn(Seq<char>, ExampleListEntry) -> bool {
    |name: Seq<char>, entry: ExampleListEntry|
        exists|x: int|
            0 <= x < examples.len() && {
                let e = #[trigger] examples[x];
                &&& passes_filters_spec(e, filters, query)
                &&& entry.id@ == e.metadata.id
                &&& entry.title@ == e.metadata.title
                &&& opt_text(entry.note) == e.metadata.note
                &&& (e.metadata.categories.contains(name) || (e.metadata.categories.len() == 0
                    && name == "Uncategorized"@))
            }
}

/// Every entry of every group satisfies the row predicate for its group's
/// name.
pub open spec fn groups_entries_ok(
    groups: Seq<(String, Vec<ExampleListEntry>)>,
    ok: spec_fn(Seq<char>, ExampleListEntry) -> bool,
) -> bool {
    forall|g: int, k: int|
        0 <= g < groups.len() && 0 <= k < groups[g].1@.len() ==> ok(
            groups[g].0@,
            #[trigger] groups[g].1@[k],
        )
}

/// Every entry of one group satisfies the row predicate for its name.
pub open spec fn group_ok(
    pair: (String, Vec<ExampleListEntry>),
    ok: spec_fn(Seq<char>, ExampleListEntry) -> bool,
) -> bool {
    forall|k: int| 0 <= k < pair.1@.len() ==> ok(pair.0@, #[trigger] pair.1@[k])
}

/// No two groups share a name: each category appears once.
pub open spec fn distinct_group_names(groups: Seq<(String, Vec<ExampleListEntry>)>) -> bool {
    forall|i: int, j: int|
        0 <= i < j < groups.len() ==> (#[trigger] groups[i]).0@ != (#[trigger] groups[j]).0@
}

/// Groups in non-descending category-name order.
pub open spec fn group_names_sorted(s: Seq<(String, Vec<ExampleListEntry>)>) -> bool {
    forall|i: int, j: int|
        0 <= i < j < s.len() ==> crate::harness::lex_leq(
            (#[trigger] s[i]).0@,
            (#[trigger] s[j]).0@,
        )
}

/// Sorts groups by category name with insertion sort; every group stays
/// non-empty, names stay unique, and every entry keeps satisfying the row
/// predicate.
fn sort_groups_by_name(
    groups: Vec<(String, Vec<ExampleListEntry>)>,
    ok: Ghost<spec_fn(Seq<char>, ExampleListEntry) -> bool>,
) -> (r: Vec<(String, Vec<ExampleListEntry>)>)
    requires
        forall|g: int| 0 <= g < groups@.len() ==> (#[trigger] groups@[g]).1@.len() > 0,
        groups_entries_ok(groups@, ok@),
        distinct_group_names(groups@),
    ensures
        forall|g: int| 0 <= g < r@.len() ==> (#[trigger] r@[g]).1@.len() > 0,
        group_names_sorted(r@),
        groups_entries_ok(r@, ok@),
        distinct_group_names(r@),
        forall|k: int|
            0 <= k < r@.len() ==> exists|j: int|
                0 <= j < groups@.len() && #[trigger] r@[k] == groups@[j],
    decreases groups@.len(),
{
    let ghost whole = groups@;
    let mut rest = groups;
    match rest.pop() {
        Some(last) => {
            proof {
                assert(rest@ =~= whole.drop_last());
                assert(forall|j: int| 0 <= j < rest@.len() ==> rest@[j] == whole[j]);
                assert(last == whole.last());
                assert(group_ok(last, ok@)) by {
                    assert(forall|k: int|
                        0 <= k < whole[whole.len() - 1].1@.len() ==> ok@(
                            whole[whole.len() - 1].0@,
                            #[trigger] whole[whole.len() - 1].1@[k],
                        ));
                }
            }
            let sorted = sort_groups_by_name(rest, ok);
            proof {
                assert forall|j: int|
                    0 <= j < sorted@.len() implies (#[trigger] sorted@[j]).0@ != last.0@ by {
                    let x = choose|x: int| 0 <= x < rest@.len() && sorted@[j] == rest@[x];
                    assert(rest@[x].0@ != whole.last().0@);
                }
            }
            let r = insert_group_by_name(sorted, last, ok);
            proof {
                assert forall|k: int|
                    0 <= k < r@.len() implies exists|j: int|
                        0 <= j < whole.len() && #[trigger] r@[k] == whole[j] by {
                    if r@[k] == last {
                        assert(r@[k] == whole[whole.len() - 1]);
                    } else {
                        let x = choose|x: int| 0 <= x < sorted@.len() && sorted@[x] == r@[k];
                        let y = choose|y: int| 0 <= y < rest@.len() && sorted@[x] == rest@[y];
                        assert(r@[k] == whole[y]);
                    }
                }
            }
            r
        },
        None => rest,
    }
}

fn insert_group_by_name(
    sorted: Vec<(String, Vec<ExampleListEntry>)>,
    group: (String, Vec<ExampleListEntry>),
    ok: Ghost<spec_fn(Seq<char>, ExampleListEntry) -> bool>,
) -> (r: Vec<(String, Vec<ExampleListEntry>)>)
    requires
        forall|g: int| 0 <= g < sorted@.len() ==> (#[trigger] sorted@[g]).1@.len() > 0,
        group.1@.len() > 0,
        group_names_sorted(sorted@),
        groups_entries_ok(sorted@, ok@),
        group_ok(group, ok@),
        distinct_group_names(sorted@),
        forall|j: int| 0 <= j < sorted@.len() ==> (#[trigger] sorted@[j]).0@ != group.0@,
    ensures
        forall|g: int| 0 <= g < r@.len() ==> (#[trigger] r@[g]).1@.len() > 0,
        group_names_sorted(r@),
        groups_entries_ok(r@, ok@),
        distinct_group_names(r@),
        forall|k: int|
            0 <= k < r@.len() ==> #[trigger] r@[k] == group || (exists|j: int|
                0 <= j < sorted@.len() && #[trigger] sorted@[j] == r@[k]),
    decreases sorted@.len(),
{
    let ghost input = sorted@;
    if sorted.len() == 0 {
        let mut r: Vec<(String, Vec<ExampleListEntry>)> = Vec::new();
        r.push(group);
        r
    } else {
        let head_name = chars_of(sorted[0].0.as_str());
        let group_name = chars_of(group.0.as_str());
        if crate::harness::chars_leq(&head_name, &group_name) {
            let mut rest = sorted;
            let head = rest.remove(0);
            proof {
                assert(rest@ =~= input.drop_first());
                assert(forall|i: int| 0 <= i < rest@.len() ==> rest@[i] == input[i + 1]);
            }
            let tail = insert_group_by_name(rest, group, ok);
            let ghost inner = tail@;
            let mut r = tail;
            r.insert(0, head);
            proof {
                assert(r@ =~= seq![head] + inner);
                assert forall|k: int|
                    0 <= k < r@.len() implies #[trigger] r@[k] == group || (exists|j: int|
                    0 <= j < input.len() && #[trigger] input[j] == r@[k]) by {
                    if k == 0 {
                        assert(input[0] == r@[0]);
                    } else {
                        assert(r@[k] == inner[k - 1]);
                        if inner[k - 1] == group {
                        } else {
                            let j = choose|j: int|
                                0 <= j < rest@.len() && #[trigger] rest@[j] == inner[k - 1];
                            assert(input[j + 1] == r@[k]);
                        }
                    }
                }
                assert forall|g: int, k: int|
                    0 <= g < r@.len() && 0 <= k < r@[g].1@.len() implies ok@(
                    r@[g].0@,
                    #[trigger] r@[g].1@[k],
                ) by {
                    if g == 0 {
                        assert(ok@(input[0].0@, input[0].1@[k]));
                    } else {
                        assert(r@[g] == inner[g - 1]);
                    }
                }
                assert forall|a: int, b: int|
                    0 <= a < b < r@.len() implies (#[trigger] r@[a]).0@ != (
                #[trigger] r@[b]).0@ by {
                    if a == 0 {
                        assert(r@[b] == inner[b - 1]);
                        if inner[b - 1] == group {
                        } else {
                            let j = choose|j: int|
                                0 <= j < rest@.len() && #[trigger] rest@[j] == inner[b - 1];
                            assert(input[j + 1] == inner[b - 1]);
                            assert(input[0].0@ != input[j + 1].0@);
                        }
                    } else {
                        assert(r@[a] == inner[a - 1]);
                        assert(r@[b] == inner[b - 1]);
                    }
                }
                assert forall|i: int, j: int|
                    0 <= i < j < r@.len() implies crate::harness::lex_leq(
                    (#[trigger] r@[i]).0@,
                    (#[trigger] r@[j]).0@,
                ) by {
                    if i == 0 {
                        assert(r@[j] == inner[j - 1]);
                        if inner[j - 1].0@ == group.0@ {
                            assert(crate::harness::lex_leq(input[0].0@, group.0@));
                        } else {
                            let m = choose|m: int|
                                0 <= m < rest@.len() && (#[trigger] rest@[m]).0@ == inner[j
                                    - 1].0@;
                            assert(input[m + 1] == rest@[m]);
                            assert(crate::harness::lex_leq(input[0].0@, input[m + 1].0@));
                        }
                    } else {
                        assert(r@[i] == inner[i - 1]);
                        assert(r@[j] == inner[j - 1]);
                    }
                }
            }
            r
        } else {
            proof {
                crate::harness::lemma_lex_leq_total(input[0].0@, group.0@);
            }
            let mut r = sorted;
            r.insert(0, group);
            proof {
                assert(r@ =~= seq![group] + input);
                assert forall|i: int, j: int|
                    0 <= i < j < r@.len() implies crate::harness::lex_leq(
                    (#[trigger] r@[i]).0@,
                    (#[trigger] r@[j]).0@,
                ) by {
                    if i == 0 {
                        assert(r@[j] == input[j - 1]);
                        if j - 1 > 0 {
                            crate::harness::lemma_lex_leq_trans(
                                group.0@,
                                input[0].0@,
                                input[j - 1].0@,
                            );
                        }
                    } else {
                        assert(r@[i] == input[i - 1]);
                        assert(r@[j] == input[j - 1]);
                    }
                }
                assert forall|g: int, k: int|
                    0 <= g < r@.len() && 0 <= k < r@[g].1@.len() implies ok@(
                    r@[g].0@,
                    #[trigger] r@[g].1@[k],
                ) by {
                    if g > 0 {
                        assert(r@[g] == input[g - 1]);
                        assert(ok@(input[g - 1].0@, input[g - 1].1@[k]));
                    }
                }
                assert forall|a: int, b: int|
                    0 <= a < b < r@.len() implies (#[trigger] r@[a]).0@ != (
                #[trigger] r@[b]).0@ by {
                    if a == 0 {
                        assert(r@[b] == input[b - 1]);
                    } else {
                        assert(r@[a] == input[a - 1]);
                        assert(r@[b] == input[b - 1]);
                    }
                }
            }
            r
        }
    }
}

} // verus!
