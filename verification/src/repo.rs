//! The example repository: a versioned, diffable in-memory view of the
//! script examples found on disk.
//!
//! Directory scanning itself is input/output and happens outside this crate;
//! the repository receives each scan as plain values and owns everything that
//! follows: the ordered example map, the generation counter, structured diffs
//! between successive loads, the pending-change queue, and revert planning.

use vstd::prelude::*;

use crate::harness::{
    build_suites, clone_opt_string, clone_suites, files_model, opt_text, sort_by_name_spec,
    suites_model, ExampleTestSuite, SuiteFile, SuiteModel,
};
use crate::text::{concat2, concat3, doc_summary, doc_summary_spec};

verus! {

/// A link attached to an example's metadata.
pub struct ExampleLink {
    pub label: String,
    pub url: String,
}

/// A declared input field of an example.
pub struct ExampleInput {
    pub name: String,
    pub label: Option<String>,
    pub description: Option<String>,
    pub default: Option<String>,
    pub placeholder: Option<String>,
}

/// A resource reference (benchmarks, tests) attached to an example.
pub struct ExampleResource {
    pub label: Option<String>,
    pub description: Option<String>,
    pub url: Option<String>,
}

/// Declarative fields of an example's descriptor file.
pub struct ExampleMetadata {
    /// Unique id; defaults to the containing directory name when absent.
    pub id: String,
    pub title: String,
    pub description: String,
    pub note: Option<String>,
    pub doc_url: Option<String>,
    pub run_instructions: Option<String>,
    pub categories: Vec<String>,
    pub documentation: Vec<ExampleLink>,
    pub how_it_works: Vec<String>,
    pub inputs: Vec<ExampleInput>,
    pub benchmarks: Option<ExampleResource>,
    pub tests: Option<ExampleResource>,
}

/// Long-form documentation attached to an example.
pub struct ExampleDocs {
    pub path: String,
    /// First non-heading paragraph of the documentation file.
    pub summary: String,
}

/// One loaded example: a script with its metadata and test suites.
pub struct Example {
    pub metadata: ExampleMetadata,
    /// The script text, verbatim file contents.
    pub script: String,
    /// Filesystem location of the script, authoritative for revert.
    pub script_path: String,
    pub docs: Option<ExampleDocs>,
    /// Unix timestamp, in milliseconds, of the load that produced this value.
    pub loaded_at: u64,
    /// The example's test suites, ordered by display name.
    pub test_suites: Vec<ExampleTestSuite>,
}

#[verifier::ext_equal]
pub struct LinkModel {
    pub label: Seq<char>,
    pub url: Seq<char>,
}

#[verifier::ext_equal]
pub struct InputModel {
    pub name: Seq<char>,
    pub label: Option<Seq<char>>,
    pub description: Option<Seq<char>>,
    pub default: Option<Seq<char>>,
    pub placeholder: Option<Seq<char>>,
}

#[verifier::ext_equal]
pub struct ResourceModel {
    pub label: Option<Seq<char>>,
    pub description: Option<Seq<char>>,
    pub url: Option<Seq<char>>,
}

#[verifier::ext_equal]
pub struct MetadataModel {
    pub id: Seq<char>,
    pub title: Seq<char>,
    pub description: Seq<char>,
    pub note: Option<Seq<char>>,
    pub doc_url: Option<Seq<char>>,
    pub run_instructions: Option<Seq<char>>,
    pub categories: Seq<Seq<char>>,
    pub documentation: Seq<LinkModel>,
    pub how_it_works: Seq<Seq<char>>,
    pub inputs: Seq<InputModel>,
    pub benchmarks: Option<ResourceModel>,
    pub tests: Option<ResourceModel>,
}

#[verifier::ext_equal]
pub struct DocsModel {
    pub path: Seq<char>,
    pub summary: Seq<char>,
}

/// Mathematical value of an [`Example`].
#[verifier::ext_equal]
pub struct ExampleModel {
    pub metadata: MetadataModel,
    pub script: Seq<char>,
    pub script_path: Seq<char>,
    pub docs: Option<DocsModel>,
    pub loaded_at: u64,
    pub test_suites: Seq<SuiteModel>,
}

impl View for ExampleLink {
    type V = LinkModel;

    open spec fn view(&self) -> LinkModel {
        LinkModel { label: self.label@, url: self.url@ }
    }
}

impl View for ExampleInput {
    type V = InputModel;

    open spec fn view(&self) -> InputModel {
        InputModel {
            name: self.name@,
            label: opt_text(self.label),
            description: opt_text(self.description),
            default: opt_text(self.default),
            placeholder: opt_text(self.placeholder),
        }
    }
}

impl View for ExampleResource {
    type V = ResourceModel;

    open spec fn view(&self) -> ResourceModel {
        ResourceModel {
            label: opt_text(self.label),
            description: opt_text(self.description),
            url: opt_text(self.url),
        }
    }
}

/// The mathematical value of an optional resource.
pub open spec fn opt_resource_model(o: Option<ExampleResource>) -> Option<ResourceModel> {
    match o {
        Some(r) => Some(r@),
        None => None,
    }
}

/// The mathematical value of an optional docs record.
pub open spec fn opt_docs_model(o: Option<ExampleDocs>) -> Option<DocsModel> {
    match o {
        Some(d) => Some(d@),
        None => None,
    }
}

impl View for ExampleMetadata {
    type V = MetadataModel;

    open spec fn view(&self) -> MetadataModel {
        MetadataModel {
            id: self.id@,
            title: self.title@,
            description: self.description@,
            note: opt_text(self.note),
            doc_url: opt_text(self.doc_url),
            run_instructions: opt_text(self.run_instructions),
            categories: self.categories.deep_view(),
            documentation: self.documentation@.map_values(|l: ExampleLink| l@),
            how_it_works: self.how_it_works.deep_view(),
            inputs: self.inputs@.map_values(|i: ExampleInput| i@),
            benchmarks: opt_resource_model(self.benchmarks),
            tests: opt_resource_model(self.tests),
        }
    }
}

impl View for ExampleDocs {
    type V = DocsModel;

    open spec fn view(&self) -> DocsModel {
        DocsModel { path: self.path@, summary: self.summary@ }
    }
}

impl View for Example {
    type V = ExampleModel;

    open spec fn view(&self) -> ExampleModel {
        ExampleModel {
            metadata: self.metadata@,
            script: self.script@,
            script_path: self.script_path@,
            docs: opt_docs_model(self.docs),
            loaded_at: self.loaded_at,
            test_suites: suites_model(self.test_suites@),
        }
    }
}

/// The example id a loaded example is keyed by.
pub open spec fn model_id(e: ExampleModel) -> Seq<char> {
    e.metadata.id
}

/// Clones a vector of strings, keeping every element's characters.
pub fn clone_string_vec(v: &Vec<String>) -> (r: Vec<String>)
    ensures
        r.deep_view() == v.deep_view(),
{
    let mut r: Vec<String> = Vec::new();
    let mut i: usize = 0;
    while i < v.len()
        invariant
            i <= v@.len(),
            r@.len() == i as int,
            forall|j: int| 0 <= j < i as int ==> r@[j]@ == v@[j]@,
        decreases v@.len() - i,
    {
        r.push(v[i].clone());
        i = i + 1;
    }
    proof {
        assert(r.deep_view() =~= v.deep_view());
    }
    r
}

impl Clone for ExampleLink {
    fn clone(&self) -> (r: Self)
        ensures
            r@ == self@,
    {
        ExampleLink { label: self.label.clone(), url: self.url.clone() }
    }
}

impl Clone for ExampleInput {
    fn clone(&self) -> (r: Self)
        ensures
            r@ == self@,
    {
        ExampleInput {
            name: self.name.clone(),
            label: clone_opt_string(&self.label),
            description: clone_opt_string(&self.description),
            default: clone_opt_string(&self.default),
            placeholder: clone_opt_string(&self.placeholder),
        }
    }
}

impl Clone for ExampleResource {
    fn clone(&self) -> (r: Self)
        ensures
            r@ == self@,
    {
        ExampleResource {
            label: clone_opt_string(&self.label),
            description: clone_opt_string(&self.description),
            url: clone_opt_string(&self.url),
        }
    }
}

/// Clones an optional resource, keeping its value.
pub fn clone_opt_resource(o: &Option<ExampleResource>) -> (r: Option<ExampleResource>)
    ensures
        opt_resource_model(r) == opt_resource_model(*o),
{
    match o {
        Some(res) => Some(res.clone()),
        None => None,
    }
}

/// Clones a vector of links, keeping every element's value.
pub fn clone_links(v: &Vec<ExampleLink>) -> (r: Vec<ExampleLink>)
    ensures
        r@.map_values(|l: ExampleLink| l@) == v@.map_values(|l: ExampleLink| l@),
{
    let mut r: Vec<ExampleLink> = Vec::new();
    let mut i: usize = 0;
    while i < v.len()
        invariant
            i <= v@.len(),
            r@.len() == i as int,
            forall|j: int| 0 <= j < i as int ==> r@[j]@ == v@[j]@,
        decreases v@.len() - i,
    {
        r.push(v[i].clone());
        i = i + 1;
    }
    proof {
        assert(r@.map_values(|l: ExampleLink| l@) =~= v@.map_values(|l: ExampleLink| l@));
    }
    r
}

/// Clones a vector of inputs, keeping every element's value.
pub fn clone_inputs(v: &Vec<ExampleInput>) -> (r: Vec<ExampleInput>)
    ensures
        r@.map_values(|i: ExampleInput| i@) == v@.map_values(|i: ExampleInput| i@),
{
    let mut r: Vec<ExampleInput> = Vec::new();
    let mut i: usize = 0;
    while i < v.len()
        invariant
            i <= v@.len(),
            r@.len() == i as int,
            forall|j: int| 0 <= j < i as int ==> r@[j]@ == v@[j]@,
        decreases v@.len() - i,
    {
        r.push(v[i].clone());
        i = i + 1;
    }
    proof {
        assert(r@.map_values(|i: ExampleInput| i@) =~= v@.map_values(|i: ExampleInput| i@));
    }
    r
}

impl Clone for ExampleMetadata {
    fn clone(&self) -> (r: Self)
        ensures
            r@ == self@,
    {
        let r = ExampleMetadata {
            id: self.id.clone(),
            title: self.title.clone(),
            description: self.description.clone(),
            note: clone_opt_string(&self.note),
            doc_url: clone_opt_string(&self.doc_url),
            run_instructions: clone_opt_string(&self.run_instructions),
            categories: clone_string_vec(&self.categories),
            documentation: clone_links(&self.documentation),
            how_it_works: clone_string_vec(&self.how_it_works),
            inputs: clone_inputs(&self.inputs),
            benchmarks: clone_opt_resource(&self.benchmarks),
            tests: clone_opt_resource(&self.tests),
        };
        proof {
            assert(r@ =~= self@);
        }
        r
    }
}

impl Clone for ExampleDocs {
    fn clone(&self) -> (r: Self)
        ensures
            r@ == self@,
    {
        ExampleDocs { path: self.path.clone(), summary: self.summary.clone() }
    }
}

/// Clones an optional docs record, keeping its value.
pub fn clone_opt_docs(o: &Option<ExampleDocs>) -> (r: Option<ExampleDocs>)
    ensures
        opt_docs_model(r) == opt_docs_model(*o),
{
    match o {
        Some(d) => Some(d.clone()),
        None => None,
    }
}

impl Clone for Example {
    fn clone(&self) -> (r: Self)
        ensures
            r@ == self@,
    {
        let r = Example {
            metadata: self.metadata.clone(),
            script: self.script.clone(),
            script_path: self.script_path.clone(),
            docs: clone_opt_docs(&self.docs),
            loaded_at: self.loaded_at,
            test_suites: clone_suites(&self.test_suites),
        };
        proof {
            assert(r@ =~= self@);
        }
        r
    }
}

/// What one detected change consists of.
pub enum ScriptChangeKind {
    /// The example's script text changed; `None` on a side denotes
    /// addition (no previous text) or removal (no current text).
    ScriptUpdated { previous: Option<String>, current: Option<String> },
    /// One of the example's test-suite files changed, keyed by suite id.
    TestSuiteUpdated { suite_id: String, previous: Option<String>, current: Option<String> },
}

/// One diff record produced by a reload.
pub struct ScriptChange {
    pub example_id: String,
    /// The file the change was observed at; revert writes here.
    pub path: String,
    /// Unix timestamp, in milliseconds, of the reload that found the change.
    pub changed_at: u64,
    pub kind: ScriptChangeKind,
}

#[verifier::ext_equal]
pub enum ChangeKindModel {
    ScriptUpdated { previous: Option<Seq<char>>, current: Option<Seq<char>> },
    TestSuiteUpdated { suite_id: Seq<char>, previous: Option<Seq<char>>, current: Option<Seq<char>> },
}

/// Mathematical value of a [`ScriptChange`].
#[verifier::ext_equal]
pub struct ChangeModel {
    pub example_id: Seq<char>,
    pub path: Seq<char>,
    pub changed_at: u64,
    pub kind: ChangeKindModel,
}

impl View for ScriptChangeKind {
    type V = ChangeKindModel;

    open spec fn view(&self) -> ChangeKindModel {
        match self {
            ScriptChangeKind::ScriptUpdated { previous, current } => {
                ChangeKindModel::ScriptUpdated {
                    previous: opt_text(*previous),
                    current: opt_text(*current),
                }
            },
            ScriptChangeKind::TestSuiteUpdated { suite_id, previous, current } => {
                ChangeKindModel::TestSuiteUpdated {
                    suite_id: suite_id@,
                    previous: opt_text(*previous),
                    current: opt_text(*current),
                }
            },
        }
    }
}

impl View for ScriptChange {
    type V = ChangeModel;

    open spec fn view(&self) -> ChangeModel {
        ChangeModel {
            example_id: self.example_id@,
            path: self.path@,
            changed_at: self.changed_at,
            kind: self.kind@,
        }
    }
}

impl Clone for ScriptChangeKind {
    fn clone(&self) -> (r: Self)
        ensures
            r@ == self@,
    {
        match self {
            ScriptChangeKind::ScriptUpdated { previous, current } => {
                ScriptChangeKind::ScriptUpdated {
                    previous: clone_opt_string(previous),
                    current: clone_opt_string(current),
                }
            },
            ScriptChangeKind::TestSuiteUpdated { suite_id, previous, current } => {
                ScriptChangeKind::TestSuiteUpdated {
                    suite_id: suite_id.clone(),
                    previous: clone_opt_string(previous),
                    current: clone_opt_string(current),
                }
            },
        }
    }
}

impl Clone for ScriptChange {
    fn clone(&self) -> (r: Self)
        ensures
            r@ == self@,
    {
        ScriptChange {
            example_id: self.example_id.clone(),
            path: self.path.clone(),
            changed_at: self.changed_at,
            kind: self.kind.clone(),
        }
    }
}

/// The mathematical values of a sequence of change records.
pub open spec fn changes_model(s: Seq<ScriptChange>) -> Seq<ChangeModel> {
    s.map_values(|c: ScriptChange| c@)
}

/// The mathematical values of a sequence of examples.
pub open spec fn examples_model(s: Seq<Example>) -> Seq<ExampleModel> {
    s.map_values(|e: Example| e@)
}

/// The mathematical value of an optional suite.
pub open spec fn opt_suite_model(o: Option<ExampleTestSuite>) -> Option<SuiteModel> {
    match o {
        Some(s) => Some(s@),
        None => None,
    }
}

/// The mathematical value of an optional example.
pub open spec fn opt_example_model(o: Option<Example>) -> Option<ExampleModel> {
    match o {
        Some(e) => Some(e@),
        None => None,
    }
}

/// The first suite with the given id, if any.
pub open spec fn spec_find_suite(s: Seq<SuiteModel>, id: Seq<char>) -> Option<SuiteModel>
    decreases s.len(),
{
    if s.len() == 0 {
        None
    } else if s[0].id == id {
        Some(s[0])
    } else {
        spec_find_suite(s.drop_first(), id)
    }
}

/// Whether a suite with the given id is present.
pub open spec fn spec_has_suite(s: Seq<SuiteModel>, id: Seq<char>) -> bool {
    spec_find_suite(s, id) is Some
}

/// The record for a newly appeared suite file.
pub open spec fn suite_added_change(eid: Seq<char>, s: SuiteModel, now: u64) -> ChangeModel {
    ChangeModel {
        example_id: eid,
        path: s.path,
        changed_at: now,
        kind: ChangeKindModel::TestSuiteUpdated {
            suite_id: s.id,
            previous: None,
            current: Some(s.script),
        },
    }
}

/// The record for a suite file that disappeared.
pub open spec fn suite_removed_change(eid: Seq<char>, s: SuiteModel, now: u64) -> ChangeModel {
    ChangeModel {
        example_id: eid,
        path: s.path,
        changed_at: now,
        kind: ChangeKindModel::TestSuiteUpdated {
            suite_id: s.id,
            previous: Some(s.script),
            current: None,
        },
    }
}

/// The record for a suite whose script text changed.
pub open spec fn suite_updated_change(
    eid: Seq<char>,
    prev: SuiteModel,
    cur: SuiteModel,
    now: u64,
) -> ChangeModel {
    ChangeModel {
        example_id: eid,
        path: cur.path,
        changed_at: now,
        kind: ChangeKindModel::TestSuiteUpdated {
            suite_id: cur.id,
            previous: Some(prev.script),
            current: Some(cur.script),
        },
    }
}

/// A script-level record; `None` on a side denotes addition or removal.
pub open spec fn script_change(
    eid: Seq<char>,
    path: Seq<char>,
    previous: Option<Seq<char>>,
    current: Option<Seq<char>>,
    now: u64,
) -> ChangeModel {
    ChangeModel {
        example_id: eid,
        path: path,
        changed_at: now,
        kind: ChangeKindModel::ScriptUpdated { previous, current },
    }
}

/// Records for the suites present in the new generation: one update per
/// suite whose text differs from the old generation, one addition per suite
/// that the old generation lacks, in the new generation's order.
pub open spec fn diff_suites_incoming(
    eid: Seq<char>,
    old: Seq<SuiteModel>,
    new: Seq<SuiteModel>,
    now: u64,
) -> Seq<ChangeModel>
    decreases new.len(),
{
    if new.len() == 0 {
        Seq::empty()
    } else {
        let head = match spec_find_suite(old, new[0].id) {
            Some(prev) => {
                if prev.script != new[0].script {
                    seq![suite_updated_change(eid, prev, new[0], now)]
                } else {
                    Seq::empty()
                }
            },
            None => seq![suite_added_change(eid, new[0], now)],
        };
        head + diff_suites_incoming(eid, old, new.drop_first(), now)
    }
}

/// Removal records for the suites of the old generation that the new
/// generation lacks, in the old generation's order.
pub open spec fn diff_suites_departed(
    eid: Seq<char>,
    old: Seq<SuiteModel>,
    new: Seq<SuiteModel>,
    now: u64,
) -> Seq<ChangeModel>
    decreases old.len(),
{
    if old.len() == 0 {
        Seq::empty()
    } else {
        let head = if spec_has_suite(new, old[0].id) {
            Seq::<ChangeModel>::empty()
        } else {
            seq![suite_removed_change(eid, old[0], now)]
        };
        head + diff_suites_departed(eid, old.drop_first(), new, now)
    }
}

/// All suite records for one example present in both generations.
pub open spec fn suite_changes(
    eid: Seq<char>,
    old: Seq<SuiteModel>,
    new: Seq<SuiteModel>,
    now: u64,
) -> Seq<ChangeModel> {
    diff_suites_incoming(eid, old, new, now) + diff_suites_departed(eid, old, new, now)
}

/// One addition record per suite, in order.
pub open spec fn all_suites_added(eid: Seq<char>, suites: Seq<SuiteModel>, now: u64) -> Seq<
    ChangeModel,
>
    decreases suites.len(),
{
    if suites.len() == 0 {
        Seq::empty()
    } else {
        seq![suite_added_change(eid, suites[0], now)] + all_suites_added(
            eid,
            suites.drop_first(),
            now,
        )
    }
}

/// One removal record per suite, in order.
pub open spec fn all_suites_removed(eid: Seq<char>, suites: Seq<SuiteModel>, now: u64) -> Seq<
    ChangeModel,
>
    decreases suites.len(),
{
    if suites.len() == 0 {
        Seq::empty()
    } else {
        seq![suite_removed_change(eid, suites[0], now)] + all_suites_removed(
            eid,
            suites.drop_first(),
            now,
        )
    }
}

/// Records for an example that is only present in the new generation:
/// a script addition, then one addition per suite.
pub open spec fn example_added_changes(e: ExampleModel, now: u64) -> Seq<ChangeModel> {
    seq![script_change(model_id(e), e.script_path, None, Some(e.script), now)]
        + all_suites_added(model_id(e), e.test_suites, now)
}

/// Records for an example that is only present in the old generation:
/// a script removal, then one removal per suite.
pub open spec fn example_removed_changes(e: ExampleModel, now: u64) -> Seq<ChangeModel> {
    seq![script_change(model_id(e), e.script_path, Some(e.script), None, now)]
        + all_suites_removed(model_id(e), e.test_suites, now)
}

/// Records for an example present in both generations: a script update iff
/// the script text differs, then the suite records.
pub open spec fn example_pair_changes(
    old_e: ExampleModel,
    new_e: ExampleModel,
    now: u64,
) -> Seq<ChangeModel> {
    let script_part = if old_e.script != new_e.script {
        seq![
            script_change(
                model_id(new_e),
                new_e.script_path,
                Some(old_e.script),
                Some(new_e.script),
                now,
            ),
        ]
    } else {
        Seq::<ChangeModel>::empty()
    };
    script_part + suite_changes(model_id(new_e), old_e.test_suites, new_e.test_suites, now)
}

/// The first example with the given id, if any.
pub open spec fn spec_find_example(s: Seq<ExampleModel>, id: Seq<char>) -> Option<ExampleModel>
    decreases s.len(),
{
    if s.len() == 0 {
        None
    } else if model_id(s[0]) == id {
        Some(s[0])
    } else {
        spec_find_example(s.drop_first(), id)
    }
}

/// Whether an example with the given id is present.
pub open spec fn spec_has_example(s: Seq<ExampleModel>, id: Seq<char>) -> bool {
    spec_find_example(s, id) is Some
}

/// Records contributed by the new generation, in its order: per example,
/// either a comparison against its old counterpart or addition records.
pub open spec fn diff_incoming(
    old: Seq<ExampleModel>,
    new: Seq<ExampleModel>,
    now: u64,
) -> Seq<ChangeModel>
    decreases new.len(),
{
    if new.len() == 0 {
        Seq::empty()
    } else {
        let head = match spec_find_example(old, model_id(new[0])) {
            Some(old_e) => example_pair_changes(old_e, new[0], now),
            None => example_added_changes(new[0], now),
        };
        head + diff_incoming(old, new.drop_first(), now)
    }
}

/// Removal records for the examples of the old generation that the new
/// generation lacks, in the old generation's order.
pub open spec fn diff_departed(
    old: Seq<ExampleModel>,
    new: Seq<ExampleModel>,
    now: u64,
) -> Seq<ChangeModel>
    decreases old.len(),
{
    if old.len() == 0 {
        Seq::empty()
    } else {
        let head = if spec_has_example(new, model_id(old[0])) {
            Seq::<ChangeModel>::empty()
        } else {
            example_removed_changes(old[0], now)
        };
        head + diff_departed(old.drop_first(), new, now)
    }
}

/// The full diff between two generations.
pub open spec fn spec_diff(
    old: Seq<ExampleModel>,
    new: Seq<ExampleModel>,
    now: u64,
) -> Seq<ChangeModel> {
    diff_incoming(old, new, now) + diff_departed(old, new, now)
}

/// The first suite with the given id at or after position `i`.
pub fn find_suite_from(v: &Vec<ExampleTestSuite>, i: usize, id: &String) -> (r: Option<
    ExampleTestSuite,
>)
    requires
        i <= v@.len(),
    ensures
        opt_suite_model(r) == spec_find_suite(suites_model(v@.skip(i as int)), id@),
    decreases v@.len() - i,
{
    if i == v.len() {
        proof {
            assert(suites_model(v@.skip(i as int)) =~= Seq::<SuiteModel>::empty());
        }
        None
    } else {
        proof {
            assert(suites_model(v@.skip(i as int))[0] == v@[i as int]@);
        }
        if v[i].id == *id {
            Some(v[i].clone())
        } else {
            let r = find_suite_from(v, i + 1, id);
            proof {
                assert(suites_model(v@.skip(i as int)).drop_first() =~= suites_model(
                    v@.skip(i as int + 1),
                ));
            }
            r
        }
    }
}

/// The first example with the given id at or after position `i`.
pub fn find_example_from(v: &Vec<Example>, i: usize, id: &String) -> (r: Option<Example>)
    requires
        i <= v@.len(),
    ensures
        opt_example_model(r) == spec_find_example(examples_model(v@.skip(i as int)), id@),
    decreases v@.len() - i,
{
    if i == v.len() {
        proof {
            assert(examples_model(v@.skip(i as int)) =~= Seq::<ExampleModel>::empty());
        }
        None
    } else {
        proof {
            assert(examples_model(v@.skip(i as int))[0] == v@[i as int]@);
        }
        if v[i].metadata.id == *id {
            Some(v[i].clone())
        } else {
            let r = find_example_from(v, i + 1, id);
            proof {
                assert(examples_model(v@.skip(i as int)).drop_first() =~= examples_model(
                    v@.skip(i as int + 1),
                ));
            }
            r
        }
    }
}

fn make_suite_added(eid: &String, s: &ExampleTestSuite, now: u64) -> (r: ScriptChange)
    ensures
        r@ == suite_added_change(eid@, s@, now),
{
    ScriptChange {
        example_id: eid.clone(),
        path: s.path.clone(),
        changed_at: now,
        kind: ScriptChangeKind::TestSuiteUpdated {
            suite_id: s.id.clone(),
            previous: None,
            current: Some(s.script.clone()),
        },
    }
}

fn make_suite_removed(eid: &String, s: &ExampleTestSuite, now: u64) -> (r: ScriptChange)
    ensures
        r@ == suite_removed_change(eid@, s@, now),
{
    ScriptChange {
        example_id: eid.clone(),
        path: s.path.clone(),
        changed_at: now,
        kind: ScriptChangeKind::TestSuiteUpdated {
            suite_id: s.id.clone(),
            previous: Some(s.script.clone()),
            current: None,
        },
    }
}

fn make_suite_updated(
    eid: &String,
    prev: &ExampleTestSuite,
    cur: &ExampleTestSuite,
    now: u64,
) -> (r: ScriptChange)
    ensures
        r@ == suite_updated_change(eid@, prev@, cur@, now),
{
    ScriptChange {
        example_id: eid.clone(),
        path: cur.path.clone(),
        changed_at: now,
        kind: ScriptChangeKind::TestSuiteUpdated {
            suite_id: cur.id.clone(),
            previous: Some(prev.script.clone()),
            current: Some(cur.script.clone()),
        },
    }
}

fn make_script_change(
    eid: &String,
    path: &String,
    previous: Option<String>,
    current: Option<String>,
    now: u64,
) -> (r: ScriptChange)
    ensures
        r@ == script_change(eid@, path@, opt_text(previous), opt_text(current), now),
{
    ScriptChange {
        example_id: eid.clone(),
        path: path.clone(),
        changed_at: now,
        kind: ScriptChangeKind::ScriptUpdated { previous, current },
    }
}

fn diff_suites_incoming_exec(
    eid: &String,
    prev_suites: &Vec<ExampleTestSuite>,
    next_suites: &Vec<ExampleTestSuite>,
    i: usize,
    now: u64,
    acc: &mut Vec<ScriptChange>,
)
    requires
        i <= next_suites@.len(),
    ensures
        changes_model(final(acc)@) == changes_model(old(acc)@) + diff_suites_incoming(
            eid@,
            suites_model(prev_suites@),
            suites_model(next_suites@.skip(i as int)),
            now,
        ),
    decreases next_suites@.len() - i,
{
    if i == next_suites.len() {
        proof {
            assert(suites_model(next_suites@.skip(i as int)) =~= Seq::<SuiteModel>::empty());
            assert(changes_model(acc@) =~= changes_model(acc@) + diff_suites_incoming(
                eid@,
                suites_model(prev_suites@),
                suites_model(next_suites@.skip(i as int)),
                now,
            ));
        }
    } else {
        let ghost pre = acc@;
        let ghost new_suffix = suites_model(next_suites@.skip(i as int));
        proof {
            assert(new_suffix[0] == next_suites@[i as int]@);
            assert(prev_suites@.skip(0) =~= prev_suites@);
        }
        match find_suite_from(prev_suites, 0, &next_suites[i].id) {
            Some(prev) => {
                if !(prev.script == next_suites[i].script) {
                    acc.push(make_suite_updated(eid, &prev, &next_suites[i], now));
                    proof {
                        assert(changes_model(acc@) =~= changes_model(pre) + seq![
                            suite_updated_change(eid@, prev@, next_suites@[i as int]@, now),
                        ]);
                    }
                } else {
                    proof {
                        assert(changes_model(acc@) =~= changes_model(pre)
                            + Seq::<ChangeModel>::empty());
                    }
                }
            },
            None => {
                acc.push(make_suite_added(eid, &next_suites[i], now));
                proof {
                    assert(changes_model(acc@) =~= changes_model(pre) + seq![
                        suite_added_change(eid@, next_suites@[i as int]@, now),
                    ]);
                }
            },
        }
        let ghost mid = acc@;
        diff_suites_incoming_exec(eid, prev_suites, next_suites, i + 1, now, acc);
        proof {
            assert(new_suffix.drop_first() =~= suites_model(next_suites@.skip(i as int + 1)));
            assert(changes_model(acc@) =~= changes_model(pre) + diff_suites_incoming(
                eid@,
                suites_model(prev_suites@),
                new_suffix,
                now,
            ));
        }
    }
}

fn diff_suites_departed_exec(
    eid: &String,
    prev_suites: &Vec<ExampleTestSuite>,
    next_suites: &Vec<ExampleTestSuite>,
    i: usize,
    now: u64,
    acc: &mut Vec<ScriptChange>,
)
    requires
        i <= prev_suites@.len(),
    ensures
        changes_model(final(acc)@) == changes_model(old(acc)@) + diff_suites_departed(
            eid@,
            suites_model(prev_suites@.skip(i as int)),
            suites_model(next_suites@),
            now,
        ),
    decreases prev_suites@.len() - i,
{
    if i == prev_suites.len() {
        proof {
            assert(suites_model(prev_suites@.skip(i as int)) =~= Seq::<SuiteModel>::empty());
            assert(changes_model(acc@) =~= changes_model(acc@) + diff_suites_departed(
                eid@,
                suites_model(prev_suites@.skip(i as int)),
                suites_model(next_suites@),
                now,
            ));
        }
    } else {
        let ghost pre = acc@;
        let ghost old_suffix = suites_model(prev_suites@.skip(i as int));
        proof {
            assert(old_suffix[0] == prev_suites@[i as int]@);
            assert(next_suites@.skip(0) =~= next_suites@);
        }
        match find_suite_from(next_suites, 0, &prev_suites[i].id) {
            Some(_) => {
                proof {
                    assert(changes_model(acc@) =~= changes_model(pre)
                        + Seq::<ChangeModel>::empty());
                }
            },
            None => {
                acc.push(make_suite_removed(eid, &prev_suites[i], now));
                proof {
                    assert(changes_model(acc@) =~= changes_model(pre) + seq![
                        suite_removed_change(eid@, prev_suites@[i as int]@, now),
                    ]);
                }
            },
        }
        diff_suites_departed_exec(eid, prev_suites, next_suites, i + 1, now, acc);
        proof {
            assert(old_suffix.drop_first() =~= suites_model(prev_suites@.skip(i as int + 1)));
            assert(changes_model(acc@) =~= changes_model(pre) + diff_suites_departed(
                eid@,
                old_suffix,
                suites_model(next_suites@),
                now,
            ));
        }
    }
}

fn push_all_suites_added(
    eid: &String,
    suites: &Vec<ExampleTestSuite>,
    i: usize,
    now: u64,
    acc: &mut Vec<ScriptChange>,
)
    requires
        i <= suites@.len(),
    ensures
        changes_model(final(acc)@) == changes_model(old(acc)@) + all_suites_added(
            eid@,
            suites_model(suites@.skip(i as int)),
            now,
        ),
    decreases suites@.len() - i,
{
    if i == suites.len() {
        proof {
            assert(suites_model(suites@.skip(i as int)) =~= Seq::<SuiteModel>::empty());
            assert(changes_model(acc@) =~= changes_model(acc@) + all_suites_added(
                eid@,
                suites_model(suites@.skip(i as int)),
                now,
            ));
        }
    } else {
        let ghost pre = acc@;
        let ghost suffix = suites_model(suites@.skip(i as int));
        proof {
            assert(suffix[0] == suites@[i as int]@);
        }
        acc.push(make_suite_added(eid, &suites[i], now));
        proof {
            assert(changes_model(acc@) =~= changes_model(pre) + seq![
                suite_added_change(eid@, suites@[i as int]@, now),
            ]);
        }
        push_all_suites_added(eid, suites, i + 1, now, acc);
        proof {
            assert(suffix.drop_first() =~= suites_model(suites@.skip(i as int + 1)));
            assert(changes_model(acc@) =~= changes_model(pre) + all_suites_added(
                eid@,
                suffix,
                now,
            ));
        }
    }
}

fn push_all_suites_removed(
    eid: &String,
    suites: &Vec<ExampleTestSuite>,
    i: usize,
    now: u64,
    acc: &mut Vec<ScriptChange>,
)
    requires
        i <= suites@.len(),
    ensures
        changes_model(final(acc)@) == changes_model(old(acc)@) + all_suites_removed(
            eid@,
            suites_model(suites@.skip(i as int)),
            now,
        ),
    decreases suites@.len() - i,
{
    if i == suites.len() {
        proof {
            assert(suites_model(suites@.skip(i as int)) =~= Seq::<SuiteModel>::empty());
            assert(changes_model(acc@) =~= changes_model(acc@) + all_suites_removed(
                eid@,
                suites_model(suites@.skip(i as int)),
                now,
            ));
        }
    } else {
        let ghost pre = acc@;
        let ghost suffix = suites_model(suites@.skip(i as int));
        proof {
            assert(suffix[0] == suites@[i as int]@);
        }
        acc.push(make_suite_removed(eid, &suites[i], now));
        proof {
            assert(changes_model(acc@) =~= changes_model(pre) + seq![
                suite_removed_change(eid@, suites@[i as int]@, now),
            ]);
        }
        push_all_suites_removed(eid, suites, i + 1, now, acc);
        proof {
            assert(suffix.drop_first() =~= suites_model(suites@.skip(i as int + 1)));
            assert(changes_model(acc@) =~= changes_model(pre) + all_suites_removed(
                eid@,
                suffix,
                now,
            ));
        }
    }
}

fn push_example_pair_changes(old_e: &Example, new_e: &Example, now: u64, acc: &mut Vec<
    ScriptChange,
>)
    ensures
        changes_model(final(acc)@) == changes_model(old(acc)@) + example_pair_changes(
            old_e@,
            new_e@,
            now,
        ),
{
    let ghost pre = acc@;
    if !(old_e.script == new_e.script) {
        acc.push(
            make_script_change(
                &new_e.metadata.id,
                &new_e.script_path,
                Some(old_e.script.clone()),
                Some(new_e.script.clone()),
                now,
            ),
        );
        proof {
            assert(changes_model(acc@) =~= changes_model(pre) + seq![
                script_change(
                    model_id(new_e@),
                    new_e@.script_path,
                    Some(old_e@.script),
                    Some(new_e@.script),
                    now,
                ),
            ]);
        }
    } else {
        proof {
            assert(changes_model(acc@) =~= changes_model(pre) + Seq::<ChangeModel>::empty());
        }
    }
    let ghost mid = acc@;
    diff_suites_incoming_exec(
        &new_e.metadata.id,
        &old_e.test_suites,
        &new_e.test_suites,
        0,
        now,
        acc,
    );
    diff_suites_departed_exec(
        &new_e.metadata.id,
        &old_e.test_suites,
        &new_e.test_suites,
        0,
        now,
        acc,
    );
    proof {
        assert(new_e.test_suites@.skip(0) =~= new_e.test_suites@);
        assert(old_e.test_suites@.skip(0) =~= old_e.test_suites@);
        assert(changes_model(acc@) =~= changes_model(pre) + example_pair_changes(
            old_e@,
            new_e@,
            now,
        ));
    }
}

fn push_example_added_changes(e: &Example, now: u64, acc: &mut Vec<ScriptChange>)
    ensures
        changes_model(final(acc)@) == changes_model(old(acc)@) + example_added_changes(e@, now),
{
    let ghost pre = acc@;
    acc.push(
        make_script_change(&e.metadata.id, &e.script_path, None, Some(e.script.clone()), now),
    );
    proof {
        assert(changes_model(acc@) =~= changes_model(pre) + seq![
            script_change(model_id(e@), e@.script_path, None, Some(e@.script), now),
        ]);
    }
    push_all_suites_added(&e.metadata.id, &e.test_suites, 0, now, acc);
    proof {
        assert(e.test_suites@.skip(0) =~= e.test_suites@);
        assert(changes_model(acc@) =~= changes_model(pre) + example_added_changes(e@, now));
    }
}

fn push_example_removed_changes(e: &Example, now: u64, acc: &mut Vec<ScriptChange>)
    ensures
        changes_model(final(acc)@) == changes_model(old(acc)@) + example_removed_changes(e@, now),
{
    let ghost pre = acc@;
    acc.push(
        make_script_change(&e.metadata.id, &e.script_path, Some(e.script.clone()), None, now),
    );
    proof {
        assert(changes_model(acc@) =~= changes_model(pre) + seq![
            script_change(model_id(e@), e@.script_path, Some(e@.script), None, now),
        ]);
    }
    push_all_suites_removed(&e.metadata.id, &e.test_suites, 0, now, acc);
    proof {
        assert(e.test_suites@.skip(0) =~= e.test_suites@);
        assert(changes_model(acc@) =~= changes_model(pre) + example_removed_changes(e@, now));
    }
}

fn diff_incoming_exec(
    prev_gen: &Vec<Example>,
    next_gen: &Vec<Example>,
    i: usize,
    now: u64,
    acc: &mut Vec<ScriptChange>,
)
    requires
        i <= next_gen@.len(),
    ensures
        changes_model(final(acc)@) == changes_model(old(acc)@) + diff_incoming(
            examples_model(prev_gen@),
            examples_model(next_gen@.skip(i as int)),
            now,
        ),
    decreases next_gen@.len() - i,
{
    if i == next_gen.len() {
        proof {
            assert(examples_model(next_gen@.skip(i as int)) =~= Seq::<ExampleModel>::empty());
            assert(changes_model(acc@) =~= changes_model(acc@) + diff_incoming(
                examples_model(prev_gen@),
                examples_model(next_gen@.skip(i as int)),
                now,
            ));
        }
    } else {
        let ghost pre = acc@;
        let ghost suffix = examples_model(next_gen@.skip(i as int));
        proof {
            assert(suffix[0] == next_gen@[i as int]@);
            assert(prev_gen@.skip(0) =~= prev_gen@);
        }
        match find_example_from(prev_gen, 0, &next_gen[i].metadata.id) {
            Some(old_e) => {
                push_example_pair_changes(&old_e, &next_gen[i], now, acc);
            },
            None => {
                push_example_added_changes(&next_gen[i], now, acc);
            },
        }
        diff_incoming_exec(prev_gen, next_gen, i + 1, now, acc);
        proof {
            assert(suffix.drop_first() =~= examples_model(next_gen@.skip(i as int + 1)));
            assert(changes_model(acc@) =~= changes_model(pre) + diff_incoming(
                examples_model(prev_gen@),
                suffix,
                now,
            ));
        }
    }
}

fn diff_departed_exec(
    prev_gen: &Vec<Example>,
    next_gen: &Vec<Example>,
    i: usize,
    now: u64,
    acc: &mut Vec<ScriptChange>,
)
    requires
        i <= prev_gen@.len(),
    ensures
        changes_model(final(acc)@) == changes_model(old(acc)@) + diff_departed(
            examples_model(prev_gen@.skip(i as int)),
            examples_model(next_gen@),
            now,
        ),
    decreases prev_gen@.len() - i,
{
    if i == prev_gen.len() {
        proof {
            assert(examples_model(prev_gen@.skip(i as int)) =~= Seq::<ExampleModel>::empty());
            assert(changes_model(acc@) =~= changes_model(acc@) + diff_departed(
                examples_model(prev_gen@.skip(i as int)),
                examples_model(next_gen@),
                now,
            ));
        }
    } else {
        let ghost pre = acc@;
        let ghost suffix = examples_model(prev_gen@.skip(i as int));
        proof {
            assert(suffix[0] == prev_gen@[i as int]@);
            assert(next_gen@.skip(0) =~= next_gen@);
        }
        match find_example_from(next_gen, 0, &prev_gen[i].metadata.id) {
            Some(_) => {
                proof {
                    assert(changes_model(acc@) =~= changes_model(pre)
                        + Seq::<ChangeModel>::empty());
                }
            },
            None => {
                push_example_removed_changes(&prev_gen[i], now, acc);
            },
        }
        diff_departed_exec(prev_gen, next_gen, i + 1, now, acc);
        proof {
            assert(suffix.drop_first() =~= examples_model(prev_gen@.skip(i as int + 1)));
            assert(changes_model(acc@) =~= changes_model(pre) + diff_departed(
                suffix,
                examples_model(next_gen@),
                now,
            ));
        }
    }
}

/// Computes the structured diff between two repository generations: per
/// example, a `ScriptUpdated` record iff the script text differs, and one
/// `TestSuiteUpdated` record per added, changed or removed suite file; an
/// example present on one side only contributes records whose missing side
/// is `None`.
pub fn diff_examples(prev_gen: &Vec<Example>, next_gen: &Vec<Example>, now: u64) -> (r: Vec<ScriptChange>)
    ensures
        changes_model(r@) == spec_diff(examples_model(prev_gen@), examples_model(next_gen@), now),
{
    let mut acc: Vec<ScriptChange> = Vec::new();
    proof {
        assert(changes_model(acc@) =~= Seq::<ChangeModel>::empty());
    }
    diff_incoming_exec(prev_gen, next_gen, 0, now, &mut acc);
    diff_departed_exec(prev_gen, next_gen, 0, now, &mut acc);
    proof {
        assert(next_gen@.skip(0) =~= next_gen@);
        assert(prev_gen@.skip(0) =~= prev_gen@);
        assert(changes_model(acc@) =~= spec_diff(
            examples_model(prev_gen@),
            examples_model(next_gen@),
            now,
        ));
    }
    acc
}

/// Mathematical value of an [`ExampleLibrary`].
#[verifier::ext_equal]
pub struct LibraryModel {
    pub examples: Seq<ExampleModel>,
    pub version: usize,
    pub pending: Seq<ChangeModel>,
}

/// The example repository: the current generation of examples, a counter
/// that strictly increases on every reload, and the queue of change records
/// not yet collected by a consumer.
pub struct ExampleLibrary {
    examples: Vec<Example>,
    version: usize,
    recent_changes: Vec<ScriptChange>,
}

impl View for ExampleLibrary {
    type V = LibraryModel;

    closed spec fn view(&self) -> LibraryModel {
        LibraryModel {
            examples: examples_model(self.examples@),
            version: self.version,
            pending: changes_model(self.recent_changes@),
        }
    }
}

/// What applying one revert means for the filesystem; the caller performs
/// the write or the removal and then reloads.
pub enum RevertAction {
    /// Write `contents` back to the file at `path`, creating parent
    /// directories as needed.
    Restore { path: String, contents: String },
    /// Remove the file at `path` if it exists.
    Remove { path: String },
}

impl ExampleLibrary {
    /// Creates a repository from an initial scan. The initial load counts as
    /// a reload: the version becomes 1 and the whole scan is queued as
    /// additions against an empty previous generation.
    pub fn new(scan: Vec<Example>, now: u64) -> (r: Self)
        ensures
            r@.examples == examples_model(scan@),
            r@.version == 1,
            r@.pending == spec_diff(Seq::<ExampleModel>::empty(), examples_model(scan@), now),
    {
        let mut lib = ExampleLibrary {
            examples: Vec::new(),
            version: 0,
            recent_changes: Vec::new(),
        };
        proof {
            assert(examples_model(lib.examples@) =~= Seq::<ExampleModel>::empty());
            assert(changes_model(lib.recent_changes@) =~= Seq::<ChangeModel>::empty());
        }
        lib.refresh(scan, now);
        proof {
            assert(lib@.pending =~= spec_diff(
                Seq::<ExampleModel>::empty(),
                examples_model(scan@),
                now,
            ));
        }
        lib
    }

    /// Replaces the stored generation with a fresh scan, increments the
    /// version unconditionally - it is a generation counter, not a change
    /// flag - and appends the diff against the previous generation to the
    /// pending queue.
    pub fn refresh(&mut self, scan: Vec<Example>, now: u64)
        requires
            old(self)@.version < usize::MAX,
        ensures
            final(self)@.examples == examples_model(scan@),
            final(self)@.version == old(self)@.version + 1,
            final(self)@.version > old(self)@.version,
            final(self)@.pending == old(self)@.pending + spec_diff(
                old(self)@.examples,
                examples_model(scan@),
                now,
            ),
    {
        let changes = diff_examples(&self.examples, &scan, now);
        self.examples = scan;
        self.version = self.version + 1;
        let ghost pre_pending = changes_model(self.recent_changes@);
        let ghost stored = self.examples@;
        let ghost ver = self.version;
        let mut i: usize = 0;
        proof {
            assert(changes_model(self.recent_changes@) =~= pre_pending + changes_model(
                changes@.take(0),
            ));
        }
        while i < changes.len()
            invariant
                i <= changes@.len(),
                self.examples@ == stored,
                self.version == ver,
                changes_model(self.recent_changes@) == pre_pending + changes_model(
                    changes@.take(i as int),
                ),
            decreases changes@.len() - i,
        {
            let ghost prefix = changes@.take(i as int);
            self.recent_changes.push(changes[i].clone());
            i = i + 1;
            proof {
                assert(changes@.take(i as int) =~= prefix.push(changes@[i - 1]));
                assert(changes_model(prefix.push(changes@[i - 1])) =~= changes_model(prefix).push(
                    changes@[i - 1]@,
                ));
                assert(pre_pending + changes_model(prefix).push(changes@[i - 1]@) =~= (pre_pending
                    + changes_model(prefix)).push(changes@[i - 1]@));
                assert(changes_model(self.recent_changes@) =~= (pre_pending + changes_model(
                    prefix,
                )).push(changes@[i - 1]@));
            }
        }
        proof {
            assert(changes@.take(changes@.len() as int) =~= changes@);
        }
    }

    /// The current generation number.
    pub fn version(&self) -> (r: usize)
        ensures
            r == self@.version,
    {
        self.version
    }

    /// Looks up one example by id; the returned value is an independent
    /// snapshot of the stored example.
    pub fn get(&self, id: &String) -> (r: Option<Example>)
        ensures
            opt_example_model(r) == spec_find_example(self@.examples, id@),
    {
        let r = find_example_from(&self.examples, 0, id);
        proof {
            assert(self.examples@.skip(0) =~= self.examples@);
        }
        r
    }

    /// The current generation's examples, as independent snapshots.
    pub fn snapshot(&self) -> (r: Vec<Example>)
        ensures
            examples_model(r@) == self@.examples,
    {
        let mut r: Vec<Example> = Vec::new();
        let mut i: usize = 0;
        while i < self.examples.len()
            invariant
                i <= self.examples@.len(),
                r@.len() == i as int,
                forall|j: int| 0 <= j < i as int ==> r@[j]@ == self.examples@[j]@,
            decreases self.examples@.len() - i,
        {
            r.push(self.examples[i].clone());
            i = i + 1;
        }
        proof {
            assert(examples_model(r@) =~= examples_model(self.examples@));
        }
        r
    }

    /// Atomically drains the pending queue; a second call with no reload in
    /// between returns an empty list.
    pub fn take_recent_changes(&mut self) -> (r: Vec<ScriptChange>)
        ensures
            changes_model(r@) == old(self)@.pending,
            final(self)@.pending == Seq::<ChangeModel>::empty(),
            final(self)@.examples == old(self)@.examples,
            final(self)@.version == old(self)@.version,
    {
        let mut drained: Vec<ScriptChange> = Vec::new();
        core::mem::swap(&mut drained, &mut self.recent_changes);
        proof {
            assert(changes_model(self.recent_changes@) =~= Seq::<ChangeModel>::empty());
        }
        drained
    }

    /// Plans the filesystem action that undoes one change: write the
    /// previous contents back when there were any, remove the file when the
    /// change was an addition. Planning touches no repository state; the
    /// caller applies the action and is expected to reload afterwards.
    pub fn revert_change(&self, change: &ScriptChange) -> (r: RevertAction)
        ensures
            match change_previous(change@.kind) {
                Some(p) => r matches RevertAction::Restore { path, contents }
                    && path@ == change@.path && contents@ == p,
                None => r matches RevertAction::Remove { path } && path@ == change@.path,
            },
    {
        let previous = match &change.kind {
            ScriptChangeKind::ScriptUpdated { previous, current: _ } => clone_opt_string(previous),
            ScriptChangeKind::TestSuiteUpdated { previous, .. } => clone_opt_string(previous),
        };
        match previous {
            Some(contents) => RevertAction::Restore { path: change.path.clone(), contents },
            None => RevertAction::Remove { path: change.path.clone() },
        }
    }
}

/// The pre-change text recorded in a change, whichever kind it is.
pub open spec fn change_previous(kind: ChangeKindModel) -> Option<Seq<char>> {
    match kind {
        ChangeKindModel::ScriptUpdated { previous, current } => previous,
        ChangeKindModel::TestSuiteUpdated { suite_id, previous, current } => previous,
    }
}


/// No two suites of one example share an id.
pub open spec fn distinct_suite_ids(s: Seq<SuiteModel>) -> bool {
    forall|i: int, j: int| 0 <= i < j < s.len() ==> s[i].id != s[j].id
}

/// No two examples of one generation share an id.
pub open spec fn distinct_example_ids(s: Seq<ExampleModel>) -> bool {
    forall|i: int, j: int| 0 <= i < j < s.len() ==> model_id(s[i]) != model_id(s[j])
}

/// A well-formed generation: example ids are unique, and so are the suite
/// ids within each example.
pub open spec fn wf_examples(s: Seq<ExampleModel>) -> bool {
    &&& distinct_example_ids(s)
    &&& forall|i: int| 0 <= i < s.len() ==> distinct_suite_ids(#[trigger] s[i].test_suites)
}

/// In a suite list with unique ids, looking a suite's own id up finds it.
pub proof fn lemma_find_suite_self(s: Seq<SuiteModel>, i: int)
    requires
        distinct_suite_ids(s),
        0 <= i < s.len(),
    ensures
        spec_find_suite(s, s[i].id) == Some(s[i]),
    decreases i,
{
    if i == 0 {
    } else {
        assert(s[0].id != s[i].id);
        let rest = s.drop_first();
        assert(distinct_suite_ids(rest)) by {
            assert(forall|a: int, b: int|
                0 <= a < b < rest.len() ==> rest[a] == s[a + 1] && rest[b] == s[b + 1]);
        }
        assert(rest[i - 1] == s[i]);
        lemma_find_suite_self(rest, i - 1);
    }
}

/// In a generation with unique ids, looking an example's own id up finds it.
pub proof fn lemma_find_example_self(s: Seq<ExampleModel>, i: int)
    requires
        distinct_example_ids(s),
        0 <= i < s.len(),
    ensures
        spec_find_example(s, model_id(s[i])) == Some(s[i]),
    decreases i,
{
    if i == 0 {
    } else {
        assert(model_id(s[0]) != model_id(s[i]));
        let rest = s.drop_first();
        assert(distinct_example_ids(rest)) by {
            assert(forall|a: int, b: int|
                0 <= a < b < rest.len() ==> rest[a] == s[a + 1] && rest[b] == s[b + 1]);
        }
        assert(rest[i - 1] == s[i]);
        lemma_find_example_self(rest, i - 1);
    }
}

/// A failed lookup means no element carries the id.
pub proof fn lemma_find_example_absent(s: Seq<ExampleModel>, id: Seq<char>)
    requires
        spec_find_example(s, id) is None,
    ensures
        forall|j: int| 0 <= j < s.len() ==> model_id(#[trigger] s[j]) != id,
    decreases s.len(),
{
    if s.len() == 0 {
    } else {
        let rest = s.drop_first();
        lemma_find_example_absent(rest, id);
        assert(forall|j: int| 0 <= j < rest.len() ==> rest[j] == s[j + 1]);
        assert forall|j: int| 0 <= j < s.len() implies model_id(#[trigger] s[j]) != id by {
            if j > 0 {
                assert(s[j] == rest[j - 1]);
            }
        }
    }
}

/// Law: in a loaded generation with unique ids, looking an example's id up
/// returns that example, its script text verbatim. Together with
/// [`ExampleLibrary::refresh`], whose postcondition stores a scan unchanged,
/// and [`ExampleLibrary::get`], this says that a scan followed by a lookup
/// hands the file contents back untouched.
pub proof fn lemma_scan_then_get(s: Seq<ExampleModel>, i: int)
    requires
        distinct_example_ids(s),
        0 <= i < s.len(),
    ensures
        spec_find_example(s, model_id(s[i])) == Some(s[i]),
        spec_find_example(s, model_id(s[i]))->Some_0.script == s[i].script,
{
    lemma_find_example_self(s, i);
}

/// An element of either part is an element of the concatenation.
pub proof fn lemma_concat_contains<T>(a: Seq<T>, b: Seq<T>, x: T)
    requires
        a.contains(x) || b.contains(x),
    ensures
        (a + b).contains(x),
{
    if a.contains(x) {
        let i = choose|i: int| 0 <= i < a.len() && a[i] == x;
        assert((a + b)[i] == x);
    } else {
        let i = choose|i: int| 0 <= i < b.len() && b[i] == x;
        assert((a + b)[a.len() + i] == x);
    }
}

proof fn lemma_diff_incoming_added(
    old_gen: Seq<ExampleModel>,
    new_gen: Seq<ExampleModel>,
    now: u64,
    i: int,
)
    requires
        0 <= i < new_gen.len(),
        !spec_has_example(old_gen, model_id(new_gen[i])),
    ensures
        diff_incoming(old_gen, new_gen, now).contains(
            script_change(
                model_id(new_gen[i]),
                new_gen[i].script_path,
                None,
                Some(new_gen[i].script),
                now,
            ),
        ),
    decreases i,
{
    let target = script_change(
        model_id(new_gen[i]),
        new_gen[i].script_path,
        None,
        Some(new_gen[i].script),
        now,
    );
    if i == 0 {
        let head = example_added_changes(new_gen[0], now);
        assert(head[0] == target);
        assert(diff_incoming(old_gen, new_gen, now)[0] == target);
    } else {
        let rest = new_gen.drop_first();
        assert(rest[i - 1] == new_gen[i]);
        lemma_diff_incoming_added(old_gen, rest, now, i - 1);
        let head = match spec_find_example(old_gen, model_id(new_gen[0])) {
            Some(old_e) => example_pair_changes(old_e, new_gen[0], now),
            None => example_added_changes(new_gen[0], now),
        };
        lemma_concat_contains(head, diff_incoming(old_gen, rest, now), target);
    }
}

proof fn lemma_diff_departed_removed(
    old_gen: Seq<ExampleModel>,
    new_gen: Seq<ExampleModel>,
    now: u64,
    i: int,
)
    requires
        0 <= i < old_gen.len(),
        !spec_has_example(new_gen, model_id(old_gen[i])),
    ensures
        diff_departed(old_gen, new_gen, now).contains(
            script_change(
                model_id(old_gen[i]),
                old_gen[i].script_path,
                Some(old_gen[i].script),
                None,
                now,
            ),
        ),
    decreases i,
{
    let target = script_change(
        model_id(old_gen[i]),
        old_gen[i].script_path,
        Some(old_gen[i].script),
        None,
        now,
    );
    if i == 0 {
        let head = example_removed_changes(old_gen[0], now);
        assert(head[0] == target);
        assert(diff_departed(old_gen, new_gen, now)[0] == target);
    } else {
        let rest = old_gen.drop_first();
        assert(rest[i - 1] == old_gen[i]);
        lemma_diff_departed_removed(rest, new_gen, now, i - 1);
        let head = if spec_has_example(new_gen, model_id(old_gen[0])) {
            Seq::<ChangeModel>::empty()
        } else {
            example_removed_changes(old_gen[0], now)
        };
        lemma_concat_contains(head, diff_departed(rest, new_gen, now), target);
    }
}

/// Law: the diff is symmetric under swapping the generations, for additions
/// and removals. An example present only in the new generation yields a
/// script record whose `previous` side is `None`; one present only in the
/// old generation yields the mirror image, with `current` equal to `None`.
pub proof fn lemma_diff_add_remove_symmetry(
    old_gen: Seq<ExampleModel>,
    new_gen: Seq<ExampleModel>,
    now: u64,
    i: int,
    j: int,
)
    requires
        0 <= i < new_gen.len() ==> !spec_has_example(old_gen, model_id(new_gen[i])),
        0 <= j < old_gen.len() ==> !spec_has_example(new_gen, model_id(old_gen[j])),
    ensures
        0 <= i < new_gen.len() ==> spec_diff(old_gen, new_gen, now).contains(
            script_change(
                model_id(new_gen[i]),
                new_gen[i].script_path,
                None,
                Some(new_gen[i].script),
                now,
            ),
        ),
        0 <= j < old_gen.len() ==> spec_diff(old_gen, new_gen, now).contains(
            script_change(
                model_id(old_gen[j]),
                old_gen[j].script_path,
                Some(old_gen[j].script),
                None,
                now,
            ),
        ),
{
    if 0 <= i < new_gen.len() {
        lemma_diff_incoming_added(old_gen, new_gen, now, i);
        lemma_concat_contains(
            diff_incoming(old_gen, new_gen, now),
            diff_departed(old_gen, new_gen, now),
            script_change(
                model_id(new_gen[i]),
                new_gen[i].script_path,
                None,
                Some(new_gen[i].script),
                now,
            ),
        );
    }
    if 0 <= j < old_gen.len() {
        lemma_diff_departed_removed(old_gen, new_gen, now, j);
        lemma_concat_contains(
            diff_incoming(old_gen, new_gen, now),
            diff_departed(old_gen, new_gen, now),
            script_change(
                model_id(old_gen[j]),
                old_gen[j].script_path,
                Some(old_gen[j].script),
                None,
                now,
            ),
        );
    }
}

proof fn lemma_suites_incoming_self(
    whole: Seq<SuiteModel>,
    suffix: Seq<SuiteModel>,
    eid: Seq<char>,
    now: u64,
)
    requires
        forall|j: int|
            0 <= j < suffix.len() ==> spec_find_suite(whole, #[trigger] suffix[j].id) == Some(
                suffix[j],
            ),
    ensures
        diff_suites_incoming(eid, whole, suffix, now) =~= Seq::<ChangeModel>::empty(),
    decreases suffix.len(),
{
    if suffix.len() == 0 {
    } else {
        assert(spec_find_suite(whole, suffix[0].id) == Some(suffix[0]));
        let rest = suffix.drop_first();
        assert(forall|j: int|
            0 <= j < rest.len() ==> rest[j] == suffix[j + 1]);
        lemma_suites_incoming_self(whole, rest, eid, now);
        assert(diff_suites_incoming(eid, whole, suffix, now) =~= Seq::<ChangeModel>::empty()
            + diff_suites_incoming(eid, whole, rest, now));
    }
}

proof fn lemma_suites_departed_self(
    whole: Seq<SuiteModel>,
    suffix: Seq<SuiteModel>,
    eid: Seq<char>,
    now: u64,
)
    requires
        forall|j: int|
            0 <= j < suffix.len() ==> spec_has_suite(whole, #[trigger] suffix[j].id),
    ensures
        diff_suites_departed(eid, suffix, whole, now) =~= Seq::<ChangeModel>::empty(),
    decreases suffix.len(),
{
    if suffix.len() == 0 {
    } else {
        let rest = suffix.drop_first();
        assert(forall|j: int|
            0 <= j < rest.len() ==> rest[j] == suffix[j + 1]);
        lemma_suites_departed_self(whole, rest, eid, now);
        assert(diff_suites_departed(eid, suffix, whole, now) =~= Seq::<ChangeModel>::empty()
            + diff_suites_departed(eid, rest, whole, now));
    }
}

/// Comparing an example against itself yields no records.
pub proof fn lemma_example_pair_self(e: ExampleModel, now: u64)
    requires
        distinct_suite_ids(e.test_suites),
    ensures
        example_pair_changes(e, e, now) =~= Seq::<ChangeModel>::empty(),
{
    assert forall|j: int| 0 <= j < e.test_suites.len() implies spec_find_suite(
        e.test_suites,
        #[trigger] e.test_suites[j].id,
    ) == Some(e.test_suites[j]) by {
        lemma_find_suite_self(e.test_suites, j);
    }
    lemma_suites_incoming_self(e.test_suites, e.test_suites, model_id(e), now);
    lemma_suites_departed_self(e.test_suites, e.test_suites, model_id(e), now);
}

proof fn lemma_diff_incoming_identity(
    whole: Seq<ExampleModel>,
    suffix: Seq<ExampleModel>,
    now: u64,
)
    requires
        forall|j: int|
            0 <= j < suffix.len() ==> spec_find_example(whole, model_id(#[trigger] suffix[j]))
                == Some(suffix[j]),
        forall|j: int|
            0 <= j < suffix.len() ==> distinct_suite_ids(#[trigger] suffix[j].test_suites),
    ensures
        diff_incoming(whole, suffix, now) =~= Seq::<ChangeModel>::empty(),
    decreases suffix.len(),
{
    if suffix.len() == 0 {
    } else {
        assert(spec_find_example(whole, model_id(suffix[0])) == Some(suffix[0]));
        lemma_example_pair_self(suffix[0], now);
        let rest = suffix.drop_first();
        assert(forall|j: int|
            0 <= j < rest.len() ==> rest[j] == suffix[j + 1]);
        lemma_diff_incoming_identity(whole, rest, now);
        assert(diff_incoming(whole, suffix, now) =~= example_pair_changes(
            suffix[0],
            suffix[0],
            now,
        ) + diff_incoming(whole, rest, now));
    }
}

proof fn lemma_diff_departed_identity(
    whole: Seq<ExampleModel>,
    suffix: Seq<ExampleModel>,
    now: u64,
)
    requires
        forall|j: int|
            0 <= j < suffix.len() ==> spec_has_example(whole, model_id(#[trigger] suffix[j])),
    ensures
        diff_departed(suffix, whole, now) =~= Seq::<ChangeModel>::empty(),
    decreases suffix.len(),
{
    if suffix.len() == 0 {
    } else {
        let rest = suffix.drop_first();
        assert(forall|j: int|
            0 <= j < rest.len() ==> rest[j] == suffix[j + 1]);
        lemma_diff_departed_identity(whole, rest, now);
        assert(diff_departed(suffix, whole, now) =~= Seq::<ChangeModel>::empty() + diff_departed(
            rest,
            whole,
            now,
        ));
    }
}

/// Law: diffing a well-formed generation against itself yields no records;
/// after a revert and the reload that follows it, a further reload of the
/// unchanged tree reports no pending change.
pub proof fn lemma_diff_identity(m: Seq<ExampleModel>, now: u64)
    requires
        wf_examples(m),
    ensures
        spec_diff(m, m, now) =~= Seq::<ChangeModel>::empty(),
{
    assert forall|j: int| 0 <= j < m.len() implies spec_find_example(
        m,
        model_id(#[trigger] m[j]),
    ) == Some(m[j]) by {
        lemma_find_example_self(m, j);
    }
    lemma_diff_incoming_identity(m, m, now);
    lemma_diff_departed_identity(m, m, now);
}


/// A documentation file found beside an example's script.
pub struct DocFile {
    pub path: String,
    pub content: String,
}

/// One example directory as read from disk: the folder name, the raw
/// descriptor text, the script text, and the optional documentation and
/// suite files. Reading the directory tree is input/output and happens
/// outside this crate; building [`Example`] values from what was read
/// happens here.
pub struct ScanEntry {
    pub folder_name: String,
    pub meta_json: String,
    pub script: String,
    pub script_path: String,
    pub docs: Option<DocFile>,
    pub suite_files: Vec<SuiteFile>,
}

/// Mathematical value of a [`DocFile`].
#[verifier::ext_equal]
pub struct DocFileModel {
    pub path: Seq<char>,
    pub content: Seq<char>,
}

impl View for DocFile {
    type V = DocFileModel;

    open spec fn view(&self) -> DocFileModel {
        DocFileModel { path: self.path@, content: self.content@ }
    }
}

/// The mathematical value of an optional documentation file.
pub open spec fn opt_doc_file_model(o: Option<DocFile>) -> Option<DocFileModel> {
    match o {
        Some(d) => Some(d@),
        None => None,
    }
}

/// Mathematical value of a [`ScanEntry`].
#[verifier::ext_equal]
pub struct ScanModel {
    pub folder_name: Seq<char>,
    pub meta_json: Seq<char>,
    pub script: Seq<char>,
    pub script_path: Seq<char>,
    pub docs: Option<DocFileModel>,
    pub suite_files: Seq<SuiteModel>,
}

impl View for ScanEntry {
    type V = ScanModel;

    open spec fn view(&self) -> ScanModel {
        ScanModel {
            folder_name: self.folder_name@,
            meta_json: self.meta_json@,
            script: self.script@,
            script_path: self.script_path@,
            docs: opt_doc_file_model(self.docs),
            suite_files: files_model(self.suite_files@),
        }
    }
}

/// The mathematical values of a directory scan.
pub open spec fn scans_model(s: Seq<ScanEntry>) -> Seq<ScanModel> {
    s.map_values(|e: ScanEntry| e@)
}

/// What extracting an optional string field from descriptor text yields:
/// `Ok(None)` for an absent or null field, `Ok(Some(..))` for a string, and
/// `Err` for anything else or for text that is not a JSON object. A function
/// of the text and the key alone.
pub uninterp spec fn descriptor_string_of(text: Seq<char>, key: Seq<char>) -> Result<
    Option<Seq<char>>,
    (),
>;

/// What extracting an optional array-of-strings field yields: `Ok(empty)`
/// when absent, the strings in order when every element is a string, `Err`
/// otherwise.
pub uninterp spec fn descriptor_strings_of(text: Seq<char>, key: Seq<char>) -> Result<
    Seq<Seq<char>>,
    (),
>;

/// What extracting an optional array of `{label, url}` links yields.
pub uninterp spec fn descriptor_links_of(text: Seq<char>, key: Seq<char>) -> Result<
    Seq<LinkModel>,
    (),
>;

/// What extracting an optional array of declared inputs yields: each element
/// needs a string `name`; `label`, `description`, `default` and
/// `placeholder` are optional strings.
pub uninterp spec fn descriptor_inputs_of(text: Seq<char>, key: Seq<char>) -> Result<
    Seq<InputModel>,
    (),
>;

/// What extracting an optional `{label?, description?, url?}` resource
/// reference yields.
pub uninterp spec fn descriptor_resource_of(text: Seq<char>, key: Seq<char>) -> Result<
    Option<ResourceModel>,
    (),
>;

/// The mathematical value of an extracted optional string field.
pub open spec fn string_field_model(r: Result<Option<String>, ()>) -> Result<
    Option<Seq<char>>,
    (),
> {
    match r {
        Ok(o) => Ok(opt_text(o)),
        Err(()) => Err(()),
    }
}

/// Relies on `serde_json::from_str` and `Value::get`: extracts one optional
/// string field from descriptor text.
#[verifier::external_body]
fn descriptor_string_field(meta_json: &str, key: &str) -> (r: Result<Option<String>, ()>)
    ensures
        string_field_model(r) == descriptor_string_of(meta_json@, key@),
{
    let Ok(parsed) = serde_json::from_str::<serde_json::Value>(meta_json) else { return Err(()) };
    match parsed.get(key) {
        None | Some(serde_json::Value::Null) => Ok(None),
        Some(serde_json::Value::String(s)) => Ok(Some(s.clone())),
        Some(_) => Err(()),
    }
}

/// Relies on `serde_json::from_str`, `Value::get` and `Value::as_str`:
/// extracts one optional array-of-strings field from descriptor text.
#[verifier::external_body]
fn descriptor_strings_field(meta_json: &str, key: &str) -> (r: Result<Vec<String>, ()>)
    ensures
        match r {
            Ok(v) => descriptor_strings_of(meta_json@, key@) == Ok::<_, ()>(v.deep_view()),
            Err(()) => descriptor_strings_of(meta_json@, key@) is Err,
        },
{
    let Ok(parsed) = serde_json::from_str::<serde_json::Value>(meta_json) else { return Err(()) };
    match parsed.get(key) {
        None | Some(serde_json::Value::Null) => Ok(Vec::new()),
        Some(serde_json::Value::Array(items)) => items.iter().map(
            |item| item.as_str().map(|s| s.to_string()).ok_or(()),
        ).collect(),
        Some(_) => Err(()),
    }
}

/// Relies on `serde_json::from_str`, `Value::get` and `Value::as_str`:
/// extracts one optional array of `{label, url}` links from descriptor text.
#[verifier::external_body]
fn descriptor_links_field(meta_json: &str, key: &str) -> (r: Result<Vec<ExampleLink>, ()>)
    ensures
        match r {
            Ok(v) => descriptor_links_of(meta_json@, key@) == Ok::<_, ()>(
                v@.map_values(|l: ExampleLink| l@),
            ),
            Err(()) => descriptor_links_of(meta_json@, key@) is Err,
        },
{
    let Ok(parsed) = serde_json::from_str::<serde_json::Value>(meta_json) else { return Err(()) };
    let text = |item: &serde_json::Value, k: &str| -> Result<String, ()> {
        item.get(k).and_then(|x| x.as_str()).map(|s| s.to_string()).ok_or(())
    };
    match parsed.get(key) {
        None | Some(serde_json::Value::Null) => Ok(Vec::new()),
        Some(serde_json::Value::Array(items)) => items.iter().map(
            |item| Ok(ExampleLink { label: text(item, "label")?, url: text(item, "url")? }),
        ).collect(),
        Some(_) => Err(()),
    }
}

/// Relies on `Value::get`: one declared input from its descriptor object; a
/// string `name` is required, the other fields are optional strings.
#[verifier::external_body]
fn input_from_value(item: &serde_json::Value) -> (r: Result<ExampleInput, ()>) {
    let opt = |k: &str| match item.get(k) {
        None | Some(serde_json::Value::Null) => Ok(None),
        Some(serde_json::Value::String(s)) => Ok(Some(s.clone())),
        Some(_) => Err(()),
    };
    Ok(ExampleInput {
        name: opt("name")?.ok_or(())?,
        label: opt("label")?,
        description: opt("description")?,
        default: opt("default")?,
        placeholder: opt("placeholder")?,
    })
}

/// Relies on `serde_json::from_str` and `Value::get`: extracts one optional
/// array of declared inputs from descriptor text.
#[verifier::external_body]
fn descriptor_inputs_field(meta_json: &str, key: &str) -> (r: Result<Vec<ExampleInput>, ()>)
    ensures
        match r {
            Ok(v) => descriptor_inputs_of(meta_json@, key@) == Ok::<_, ()>(
                v@.map_values(|i: ExampleInput| i@),
            ),
            Err(()) => descriptor_inputs_of(meta_json@, key@) is Err,
        },
{
    let Ok(parsed) = serde_json::from_str::<serde_json::Value>(meta_json) else { return Err(()) };
    match parsed.get(key) {
        None | Some(serde_json::Value::Null) => Ok(Vec::new()),
        Some(serde_json::Value::Array(items)) => items.iter().map(input_from_value).collect(),
        Some(_) => Err(()),
    }
}

/// Relies on `serde_json::from_str` and `Value::get`: extracts one optional
/// resource reference (optional label, description and url strings) from
/// descriptor text.
#[verifier::external_body]
fn descriptor_resource_field(meta_json: &str, key: &str) -> (r: Result<Option<ExampleResource>, ()>)
    ensures
        match r {
            Ok(o) => descriptor_resource_of(meta_json@, key@) == Ok::<_, ()>(
                opt_resource_model(o),
            ),
            Err(()) => descriptor_resource_of(meta_json@, key@) is Err,
        },
{
    let Ok(parsed) = serde_json::from_str::<serde_json::Value>(meta_json) else { return Err(()) };
    let opt = |item: &serde_json::Value, k: &str| match item.get(k) {
        None | Some(serde_json::Value::Null) => Ok(None),
        Some(serde_json::Value::String(s)) => Ok(Some(s.clone())),
        Some(_) => Err(()),
    };
    match parsed.get(key) {
        None | Some(serde_json::Value::Null) => Ok(None),
        Some(item) => Ok(Some(ExampleResource {
            label: opt(item, "label")?,
            description: opt(item, "description")?,
            url: opt(item, "url")?,
        })),
    }
}

/// Whether descriptor text is well-formed: every field extraction succeeds,
/// and `title` and `description` are present.
pub open spec fn descriptor_valid(text: Seq<char>) -> bool {
    &&& descriptor_string_of(text, "id"@) is Ok
    &&& descriptor_string_of(text, "title"@) matches Ok(Some(_))
    &&& descriptor_string_of(text, "description"@) matches Ok(Some(_))
    &&& descriptor_string_of(text, "note"@) is Ok
    &&& descriptor_string_of(text, "doc_url"@) is Ok
    &&& descriptor_string_of(text, "run_instructions"@) is Ok
    &&& descriptor_strings_of(text, "categories"@) is Ok
    &&& descriptor_links_of(text, "documentation"@) is Ok
    &&& descriptor_strings_of(text, "how_it_works"@) is Ok
    &&& descriptor_inputs_of(text, "inputs"@) is Ok
    &&& descriptor_resource_of(text, "benchmarks"@) is Ok
    &&& descriptor_resource_of(text, "tests"@) is Ok
}

/// The value of an extracted optional string field, absent on failure.
pub open spec fn descriptor_opt(text: Seq<char>, key: Seq<char>) -> Option<Seq<char>> {
    match descriptor_string_of(text, key) {
        Ok(o) => o,
        Err(()) => None,
    }
}

/// The metadata a valid descriptor denotes, before documentation-driven
/// defaulting of `doc_url`: the extracted fields, with an absent or empty id
/// replaced by the folder name.
pub open spec fn descriptor_metadata(text: Seq<char>, folder: Seq<char>) -> MetadataModel {
    MetadataModel {
        id: match descriptor_string_of(text, "id"@) {
            Ok(Some(s)) => if s.len() == 0 {
                folder
            } else {
                s
            },
            _ => folder,
        },
        title: match descriptor_string_of(text, "title"@) {
            Ok(Some(s)) => s,
            _ => Seq::empty(),
        },
        description: match descriptor_string_of(text, "description"@) {
            Ok(Some(s)) => s,
            _ => Seq::empty(),
        },
        note: descriptor_opt(text, "note"@),
        doc_url: descriptor_opt(text, "doc_url"@),
        run_instructions: descriptor_opt(text, "run_instructions"@),
        categories: match descriptor_strings_of(text, "categories"@) {
            Ok(s) => s,
            Err(()) => Seq::empty(),
        },
        documentation: match descriptor_links_of(text, "documentation"@) {
            Ok(s) => s,
            Err(()) => Seq::empty(),
        },
        how_it_works: match descriptor_strings_of(text, "how_it_works"@) {
            Ok(s) => s,
            Err(()) => Seq::empty(),
        },
        inputs: match descriptor_inputs_of(text, "inputs"@) {
            Ok(s) => s,
            Err(()) => Seq::empty(),
        },
        benchmarks: match descriptor_resource_of(text, "benchmarks"@) {
            Ok(o) => o,
            Err(()) => None,
        },
        tests: match descriptor_resource_of(text, "tests"@) {
            Ok(o) => o,
            Err(()) => None,
        },
    }
}

/// Parses a descriptor file: exactly the well-formed descriptors yield
/// metadata, and the metadata is the extracted fields, an absent or empty id
/// defaulting to the folder name. A malformed descriptor yields `None`; the
/// caller skips the example and the scan goes on.
pub fn parse_example_metadata(meta_json: &str, folder_name: &str) -> (r: Option<ExampleMetadata>)
    ensures
        (r is Some) == descriptor_valid(meta_json@),
        r matches Some(m) ==> m@ == descriptor_metadata(meta_json@, folder_name@),
{
    let id_field = match descriptor_string_field(meta_json, "id") {
        Ok(o) => o,
        Err(()) => {
            return None;
        },
    };
    let title = match descriptor_string_field(meta_json, "title") {
        Ok(Some(s)) => s,
        _ => {
            return None;
        },
    };
    let description = match descriptor_string_field(meta_json, "description") {
        Ok(Some(s)) => s,
        _ => {
            return None;
        },
    };
    let note = match descriptor_string_field(meta_json, "note") {
        Ok(o) => o,
        Err(()) => {
            return None;
        },
    };
    let doc_url = match descriptor_string_field(meta_json, "doc_url") {
        Ok(o) => o,
        Err(()) => {
            return None;
        },
    };
    let run_instructions = match descriptor_string_field(meta_json, "run_instructions") {
        Ok(o) => o,
        Err(()) => {
            return None;
        },
    };
    let categories = match descriptor_strings_field(meta_json, "categories") {
        Ok(v) => v,
        Err(()) => {
            return None;
        },
    };
    let documentation = match descriptor_links_field(meta_json, "documentation") {
        Ok(v) => v,
        Err(()) => {
            return None;
        },
    };
    let how_it_works = match descriptor_strings_field(meta_json, "how_it_works") {
        Ok(v) => v,
        Err(()) => {
            return None;
        },
    };
    let inputs = match descriptor_inputs_field(meta_json, "inputs") {
        Ok(v) => v,
        Err(()) => {
            return None;
        },
    };
    let benchmarks = match descriptor_resource_field(meta_json, "benchmarks") {
        Ok(o) => o,
        Err(()) => {
            return None;
        },
    };
    let tests = match descriptor_resource_field(meta_json, "tests") {
        Ok(o) => o,
        Err(()) => {
            return None;
        },
    };
    let id = match id_field {
        Some(s) => {
            if s.as_str().is_empty() {
                folder_name.to_owned()
            } else {
                s
            }
        },
        None => folder_name.to_owned(),
    };
    let metadata = ExampleMetadata {
        id,
        title,
        description,
        note,
        doc_url,
        run_instructions,
        categories,
        documentation,
        how_it_works,
        inputs,
        benchmarks,
        tests,
    };
    proof {
        assert(metadata@ =~= descriptor_metadata(meta_json@, folder_name@));
    }
    Some(metadata)
}

/// The example a scanned directory denotes, when its descriptor is
/// well-formed: script, path and load time as given, suites sorted by
/// display name, the documentation summary derived from the doc file, and a
/// missing `doc_url` defaulting to the doc file's location, or to the
/// conventional `examples/<id>/docs.md` without one.
pub open spec fn spec_build_example(entry: ScanModel, now: u64) -> Option<ExampleModel> {
    if descriptor_valid(entry.meta_json) {
        let base = descriptor_metadata(entry.meta_json, entry.folder_name);
        let doc_url = match base.doc_url {
            Some(u) => Some(u),
            None => match entry.docs {
                Some(d) => Some("file://"@ + d.path),
                None => Some("examples/"@ + base.id + "/docs.md"@),
            },
        };
        Some(
            ExampleModel {
                metadata: MetadataModel { doc_url, ..base },
                script: entry.script,
                script_path: entry.script_path,
                docs: match entry.docs {
                    Some(d) => Some(DocsModel { path: d.path, summary: doc_summary_spec(d.content) }),
                    None => None,
                },
                loaded_at: now,
                test_suites: sort_by_name_spec(entry.suite_files),
            },
        )
    } else {
        None
    }
}

/// Builds one example from a scanned directory: exactly the entries with a
/// well-formed descriptor yield an example, and the example is the one the
/// scan denotes. A `None` is skipped by the caller, not fatal to the scan.
pub fn build_example(entry: ScanEntry, now: u64) -> (r: Option<Example>)
    ensures
        opt_example_model(r) == spec_build_example(entry@, now),
{
    let ghost em = entry@;
    let ScanEntry { folder_name, meta_json, script, script_path, docs, suite_files } = entry;
    let mut metadata = match parse_example_metadata(meta_json.as_str(), folder_name.as_str()) {
        Some(metadata) => metadata,
        None => {
            return None;
        },
    };
    let docs_record = match docs {
        Some(doc_file) => {
            let summary = doc_summary(doc_file.content.as_str());
            if metadata.doc_url.is_none() {
                metadata.doc_url = Some(concat2("file://", doc_file.path.as_str()));
            }
            Some(ExampleDocs { path: doc_file.path, summary })
        },
        None => None,
    };
    if metadata.doc_url.is_none() {
        metadata.doc_url = Some(concat3("examples/", metadata.id.as_str(), "/docs.md"));
    }
    let test_suites = build_suites(suite_files);
    let example = Example {
        metadata,
        script,
        script_path,
        docs: docs_record,
        loaded_at: now,
        test_suites,
    };
    proof {
        assert(example@ =~= spec_build_example(em, now)->Some_0);
    }
    Some(example)
}

/// The position of an id in a generation.
pub open spec fn example_index(s: Seq<ExampleModel>, id: Seq<char>) -> Option<int>
    decreases s.len(),
{
    if s.len() == 0 {
        None
    } else if model_id(s[0]) == id {
        Some(0int)
    } else {
        match example_index(s.drop_first(), id) {
            Some(i) => Some(i + 1),
            None => None,
        }
    }
}

/// A generation after one example is added: an example with the same id is
/// replaced in place, a new id goes to the end.
pub open spec fn spec_upsert_example(s: Seq<ExampleModel>, e: ExampleModel) -> Seq<ExampleModel> {
    match example_index(s, model_id(e)) {
        Some(i) => s.update(i, e),
        None => s.push(e),
    }
}

proof fn lemma_example_index_found(s: Seq<ExampleModel>, id: Seq<char>, i: int)
    requires
        0 <= i < s.len(),
        forall|j: int| 0 <= j < i ==> model_id(#[trigger] s[j]) != id,
        model_id(s[i]) == id,
    ensures
        example_index(s, id) == Some(i),
    decreases i,
{
    if i == 0 {
    } else {
        let rest = s.drop_first();
        assert(forall|j: int| 0 <= j < rest.len() ==> rest[j] == s[j + 1]);
        lemma_example_index_found(rest, id, i - 1);
    }
}

proof fn lemma_example_index_none(s: Seq<ExampleModel>, id: Seq<char>)
    requires
        forall|j: int| 0 <= j < s.len() ==> model_id(#[trigger] s[j]) != id,
    ensures
        example_index(s, id) is None,
    decreases s.len(),
{
    if s.len() == 0 {
    } else {
        let rest = s.drop_first();
        assert(forall|j: int| 0 <= j < rest.len() ==> rest[j] == s[j + 1]);
        lemma_example_index_none(rest, id);
    }
}

/// The position of an id in an example list: the first match.
fn find_example_index(v: &Vec<Example>, id: &String) -> (r: Option<usize>)
    ensures
        match r {
            Some(i) => i < v@.len() && model_id(examples_model(v@)[i as int]) == id@
                && example_index(examples_model(v@), id@) == Some(i as int),
            None => example_index(examples_model(v@), id@) is None && (forall|j: int|
                0 <= j < v@.len() ==> model_id(#[trigger] examples_model(v@)[j]) != id@),
        },
{
    let ghost m = examples_model(v@);
    let mut i: usize = 0;
    while i < v.len()
        invariant
            i <= v@.len(),
            m == examples_model(v@),
            forall|j: int| 0 <= j < i as int ==> model_id(#[trigger] m[j]) != id@,
        decreases v@.len() - i,
    {
        if v[i].metadata.id == *id {
            proof {
                assert(m[i as int] == v@[i as int]@);
                lemma_example_index_found(m, id@, i as int);
            }
            return Some(i);
        }
        proof {
            assert(m[i as int] == v@[i as int]@);
        }
        i = i + 1;
    }
    proof {
        lemma_example_index_none(m, id@);
    }
    None
}

/// Adds an example to a generation under construction: an example with the
/// same id is replaced in place - the last occurrence of an id wins - and a
/// new id goes to the end; ids stay unique.
pub fn upsert_example(list: &mut Vec<Example>, e: Example)
    requires
        distinct_example_ids(examples_model(old(list)@)),
    ensures
        examples_model(final(list)@) == spec_upsert_example(examples_model(old(list)@), e@),
        distinct_example_ids(examples_model(final(list)@)),
        final(list)@.len() <= old(list)@.len() + 1,
{
    let ghost pre = examples_model(list@);
    let ghost ev = e@;
    match find_example_index(list, &e.metadata.id) {
        Some(i) => {
            list.set(i, e);
            proof {
                assert(examples_model(list@) =~= pre.update(i as int, ev));
                assert forall|a: int, b: int|
                    0 <= a < b < examples_model(list@).len() implies model_id(
                    examples_model(list@)[a],
                ) != model_id(examples_model(list@)[b]) by {
                    assert(model_id(examples_model(list@)[a]) == model_id(pre[a]));
                    assert(model_id(examples_model(list@)[b]) == model_id(pre[b]));
                }
            }
        },
        None => {
            list.push(e);
            proof {
                assert(examples_model(list@) =~= pre.push(ev));
                assert forall|a: int, b: int|
                    0 <= a < b < examples_model(list@).len() implies model_id(
                    examples_model(list@)[a],
                ) != model_id(examples_model(list@)[b]) by {
                    if b < pre.len() {
                        assert(examples_model(list@)[a] == pre[a]);
                        assert(examples_model(list@)[b] == pre[b]);
                    } else {
                        assert(examples_model(list@)[a] == pre[a]);
                        assert(examples_model(list@)[b] == ev);
                    }
                }
            }
        },
    }
}

/// The generation a directory scan denotes: entries in order, each
/// well-formed descriptor contributing its example, a later entry replacing
/// an earlier one with the same id.
pub open spec fn spec_load_examples(entries: Seq<ScanModel>, now: u64) -> Seq<ExampleModel>
    decreases entries.len(),
{
    if entries.len() == 0 {
        Seq::empty()
    } else {
        let prev = spec_load_examples(entries.drop_last(), now);
        match spec_build_example(entries.last(), now) {
            Some(e) => spec_upsert_example(prev, e),
            None => prev,
        }
    }
}

/// Builds a generation from a directory scan: exactly the generation the
/// scan denotes - entries with malformed descriptors are skipped, and when
/// two entries resolve to the same id the later one wins, so the ids of the
/// result are unique.
pub fn load_examples(entries: Vec<ScanEntry>, now: u64) -> (r: Vec<Example>)
    ensures
        examples_model(r@) == spec_load_examples(scans_model(entries@), now),
        distinct_example_ids(examples_model(r@)),
{
    let ghost am = scans_model(entries@);
    let mut out: Vec<Example> = Vec::new();
    proof {
        assert(am.take(0) =~= Seq::<ScanModel>::empty());
        assert(examples_model(out@) =~= spec_load_examples(am.take(0), now));
    }
    let n = entries.len();
    let mut remaining = entries;
    let mut i: usize = 0;
    while i < n
        invariant
            i <= n,
            n == am.len(),
            remaining@.len() + i == n,
            remaining@.map_values(|e: ScanEntry| e@) == am.skip(i as int),
            examples_model(out@) == spec_load_examples(am.take(i as int), now),
            distinct_example_ids(examples_model(out@)),
        decreases n - i,
    {
        let ghost rm = remaining@.map_values(|e: ScanEntry| e@);
        let ghost pre_rem = remaining@;
        let entry = remaining.remove(0);
        proof {
            assert(rm[0] == pre_rem[0]@);
            assert(entry@ == rm[0]);
            assert(rm[0] == am[i as int]);
            assert(remaining@.map_values(|e: ScanEntry| e@) =~= rm.drop_first());
            assert(rm.drop_first() =~= am.skip(i as int + 1));
            assert(am.take(i as int + 1).drop_last() =~= am.take(i as int));
            assert(am.take(i as int + 1).last() == am[i as int]);
        }
        match build_example(entry, now) {
            Some(example) => {
                upsert_example(&mut out, example);
            },
            None => {},
        }
        i = i + 1;
        proof {
            assert(examples_model(out@) =~= spec_load_examples(am.take(i as int), now));
        }
    }
    proof {
        assert(am.take(n as int) =~= am);
    }
    out
}

} // verus!
