use koto_learning::explorer::{describe_change, format_elapsed, ExplorerApp};
use koto_learning::harness::{build_suites, parse_suite_directives, SuiteFile};
use koto_learning::repo::{
    diff_examples, load_examples, ExampleLibrary, RevertAction, ScanEntry, ScriptChangeKind,
};
use koto_learning::text::doc_summary;

fn demo_entry(script: &str) -> ScanEntry {
    ScanEntry {
        folder_name: "demo".to_string(),
        meta_json: r#"{"id":"demo","title":"Demo","description":"Test example"}"#.to_string(),
        script: script.to_string(),
        script_path: "demo/script.koto".to_string(),
        docs: None,
        suite_files: Vec::new(),
    }
}

fn demo_entry_with_suite(script: &str, suite_script: &str) -> ScanEntry {
    let mut entry = demo_entry(script);
    entry.suite_files.push(SuiteFile {
        stem: "sample".to_string(),
        path: "demo/tests/sample.koto".to_string(),
        script: suite_script.to_string(),
    });
    entry
}

#[test]
fn example_library_loads_and_refreshes() {
    let examples = load_examples(vec![demo_entry("print(\"hello\")\n42")], 1);
    let library_state = ExampleLibrary::new(examples, 1);
    let mut library = library_state;
    let snapshot = library.snapshot();
    assert_eq!(snapshot.len(), 1);
    let example = &snapshot[0];
    assert_eq!(example.metadata.id, "demo");
    assert_eq!(example.metadata.categories.len(), 0);
    assert!(example.script.contains("hello"));

    library.refresh(load_examples(vec![demo_entry("1 + 1")], 2), 2);
    let refreshed = library.get(&"demo".to_string()).expect("refreshed example");
    assert!(refreshed.script.contains("1 + 1"));
}

#[test]
fn scan_then_get_returns_script_verbatim() {
    let examples = load_examples(vec![demo_entry("print(\"hello\")\n42")], 1);
    let library = ExampleLibrary::new(examples, 1);
    let example = library.get(&"demo".to_string()).expect("example");
    assert_eq!(example.script, "print(\"hello\")\n42");
    assert_eq!(example.script_path, "demo/script.koto");
}

#[test]
fn reload_always_increments_the_version() {
    let examples = load_examples(vec![demo_entry("1")], 1);
    let mut library = ExampleLibrary::new(examples, 1);
    let before = library.version();
    library.refresh(load_examples(vec![demo_entry("1")], 2), 2);
    let after = library.version();
    assert!(after > before);
    assert_eq!(after, before + 1);
}

#[test]
fn diff_reports_addition_and_removal_sides() {
    let old_gen = load_examples(vec![demo_entry("1")], 1);
    let new_gen: Vec<koto_learning::repo::Example> = Vec::new();
    let removals = diff_examples(&old_gen, &new_gen, 5);
    assert_eq!(removals.len(), 1);
    match &removals[0].kind {
        ScriptChangeKind::ScriptUpdated { previous, current } => {
            assert_eq!(previous.as_deref(), Some("1"));
            assert!(current.is_none());
        }
        _ => unreachable!(),
    }

    let additions = diff_examples(&new_gen, &old_gen, 5);
    assert_eq!(additions.len(), 1);
    match &additions[0].kind {
        ScriptChangeKind::ScriptUpdated { previous, current } => {
            assert!(previous.is_none());
            assert_eq!(current.as_deref(), Some("1"));
        }
        _ => unreachable!(),
    }
}

#[test]
fn example_library_tracks_script_and_test_changes() {
    let initial_script = "print(\"hi\")\n1";
    let initial_suite = "tests =\n  @test pass: || 1\nexport tests\n";
    let examples = load_examples(vec![demo_entry_with_suite(initial_script, initial_suite)], 1);
    let mut library = ExampleLibrary::new(examples, 1);
    // Drain the initial load notifications.
    let _ = library.take_recent_changes();

    // A modified script file arrives with the next scan.
    library.refresh(
        load_examples(vec![demo_entry_with_suite("print(\"hi\")\n2", initial_suite)], 2),
        2,
    );
    let changes = library.take_recent_changes();
    let script_change = changes
        .iter()
        .find(|change| matches!(change.kind, ScriptChangeKind::ScriptUpdated { .. }))
        .expect("script change");
    match &script_change.kind {
        ScriptChangeKind::ScriptUpdated { previous, current } => {
            assert_eq!(previous.as_deref(), Some(initial_script));
            assert!(current.as_deref().map(|text| text.contains("2")).unwrap_or(false));
        }
        _ => unreachable!(),
    }

    // Reverting plans a write of the previous text back to the file.
    let action = library.revert_change(script_change);
    let restored = match action {
        RevertAction::Restore { path, contents } => {
            assert_eq!(path, "demo/script.koto");
            assert_eq!(contents, initial_script);
            contents
        }
        RevertAction::Remove { .. } => unreachable!(),
    };

    // The reload after the revert sees the restored text again.
    library.refresh(
        load_examples(vec![demo_entry_with_suite(restored.as_str(), initial_suite)], 3),
        3,
    );
    let _ = library.take_recent_changes();

    // An updated suite file arrives with the next scan.
    let changed_suite = "tests =\n  @test pass: || 1\n  @test another: || throw 'nope'\nexport tests\n";
    library.refresh(
        load_examples(vec![demo_entry_with_suite(initial_script, changed_suite)], 4),
        4,
    );
    let changes = library.take_recent_changes();
    let suite_change = changes
        .into_iter()
        .find(|change| matches!(change.kind, ScriptChangeKind::TestSuiteUpdated { .. }))
        .expect("suite change");
    match &suite_change.kind {
        ScriptChangeKind::TestSuiteUpdated { previous, current, .. } => {
            assert!(previous.as_deref().map(|text| text.contains("pass")).unwrap_or(false));
            assert!(current.as_deref().map(|text| text.contains("another")).unwrap_or(false));
        }
        _ => unreachable!(),
    }

    // Reverting the suite change plans the old suite text.
    match library.revert_change(&suite_change) {
        RevertAction::Restore { path, contents } => {
            assert_eq!(path, "demo/tests/sample.koto");
            assert!(contents.contains("@test pass"));
            assert!(!contents.contains("another"));
        }
        RevertAction::Remove { .. } => unreachable!(),
    }
}

#[test]
fn revert_then_reload_reports_no_pending_change() {
    let initial_script = "print(\"hi\")\n1";
    let examples = load_examples(vec![demo_entry(initial_script)], 1);
    let mut library = ExampleLibrary::new(examples, 1);
    let _ = library.take_recent_changes();

    library.refresh(load_examples(vec![demo_entry("print(\"hi\")\n2")], 2), 2);
    let changes = library.take_recent_changes();
    assert_eq!(changes.len(), 1);
    let restored = match library.revert_change(&changes[0]) {
        RevertAction::Restore { contents, .. } => contents,
        RevertAction::Remove { .. } => unreachable!(),
    };
    assert_eq!(restored, initial_script);

    // The reload right after the revert reports the revert itself...
    library.refresh(load_examples(vec![demo_entry(restored.as_str())], 3), 3);
    let _ = library.take_recent_changes();

    // ...and a further reload of the unchanged tree reports nothing.
    library.refresh(load_examples(vec![demo_entry(restored.as_str())], 4), 4);
    let pending = library.take_recent_changes();
    assert_eq!(pending.len(), 0);
}

#[test]
fn doc_summary_takes_first_plain_paragraph() {
    let content = "# Heading\n\nFirst real paragraph\nspanning two lines.\n\nSecond paragraph.";
    assert_eq!(
        doc_summary(content),
        "First real paragraph spanning two lines."
    );
    assert_eq!(doc_summary("# Only a heading"), "# Only a heading");
    assert_eq!(doc_summary(""), "");
}

#[test]
fn suite_directives_parse_title_and_description() {
    let script = "\n# Title: Sample suite\n# Description: Checks things.\n\nprint('x')\n";
    let (name, description) = parse_suite_directives(script, "fallback");
    assert_eq!(name, "Sample suite");
    assert_eq!(description.as_deref(), Some("Checks things."));

    let bare = "print('x')\n# Title: Too late\n";
    let (fallback_name, none_description) = parse_suite_directives(bare, "fallback");
    assert_eq!(fallback_name, "fallback");
    assert!(none_description.is_none());
}

#[test]
fn suites_are_sorted_by_display_name() {
    let files = vec![
        SuiteFile {
            stem: "zeta".to_string(),
            path: "demo/tests/zeta.koto".to_string(),
            script: "# Title: Beta\n".to_string(),
        },
        SuiteFile {
            stem: "alpha".to_string(),
            path: "demo/tests/alpha.koto".to_string(),
            script: "# Title: Zulu\n".to_string(),
        },
    ];
    let suites = build_suites(files);
    assert_eq!(suites.len(), 2);
    assert_eq!(suites[0].name, "Beta");
    assert_eq!(suites[0].id, "zeta");
    assert_eq!(suites[1].name, "Zulu");
    assert_eq!(suites[1].id, "alpha");
}

#[test]
fn format_elapsed_phrases_durations() {
    assert_eq!(format_elapsed(500), "500ms ago");
    assert_eq!(format_elapsed(1500), "1s ago");
    assert_eq!(format_elapsed(60_000), "1m ago");
    assert_eq!(format_elapsed(65_000), "1m 5s ago");
    assert_eq!(format_elapsed(3_600_000), "1h ago");
    assert_eq!(format_elapsed(3_660_000), "1h 1m ago");
}

#[test]
fn describe_change_names_example_and_file() {
    let examples = load_examples(vec![demo_entry("1")], 1);
    let empty: Vec<koto_learning::repo::Example> = Vec::new();
    let changes = diff_examples(&empty, &examples, 5);
    assert_eq!(changes.len(), 1);
    assert_eq!(
        describe_change(&changes[0]),
        "Example 'demo' script added (script.koto)"
    );
}

#[test]
fn explorer_selects_and_filters_examples() {
    let examples = load_examples(vec![demo_entry("print(\"hello\")\n42")], 1);
    let library = ExampleLibrary::new(examples, 1);
    let mut app = ExplorerApp::new(Some(library));
    assert_eq!(app.selected_example_id.as_deref(), Some("demo"));
    let selected = app.selected_example().expect("selected example");
    assert_eq!(selected.metadata.id, "demo");

    app.search_query = "DEMO".to_string();
    assert!(app.passes_filters(&selected));
    app.search_query = "absent".to_string();
    assert!(!app.passes_filters(&selected));
    app.search_query = String::new();

    app.category_filters.push("graphics".to_string());
    assert!(!app.passes_filters(&selected));

    let groups = app.grouped_examples();
    assert_eq!(groups.len(), 0);
    app.category_filters.clear();
    let groups = app.grouped_examples();
    assert_eq!(groups.len(), 1);
    assert_eq!(groups[0].0, "Uncategorized");
    assert_eq!(groups[0].1.len(), 1);
    assert_eq!(groups[0].1[0].id, "demo");
}

#[test]
fn explorer_tracks_changes_and_reverts() {
    let examples = load_examples(vec![demo_entry("print(\"hi\")\n1")], 1);
    let library = ExampleLibrary::new(examples, 1);
    let mut app = ExplorerApp::new(Some(library));
    app.ensure_examples_current(10);

    app.refresh_examples_from_library(load_examples(vec![demo_entry("print(\"hi\")\n2")], 2), 20);
    assert_eq!(app.examples_version, 2);
    assert!(app.examples[0].script.contains("2"));

    let change = app
        .hot_reload_notices
        .iter()
        .map(|notice| notice.change.clone())
        .find(|change| match &change.kind {
            ScriptChangeKind::ScriptUpdated { previous, .. } => previous.is_some(),
            _ => false,
        })
        .expect("script change notice");
    let action = app.revert_script_change(&change, 30).expect("revert action");
    let restored = match action {
        RevertAction::Restore { contents, .. } => {
            assert_eq!(contents, "print(\"hi\")\n1");
            contents
        }
        RevertAction::Remove { .. } => unreachable!(),
    };

    // Adopting the rescan that follows the applied revert discards the
    // revert's own mirror change instead of queueing a fresh notice.
    let notices_before = app.hot_reload_notices.len();
    app.adopt_revert_rescan(load_examples(vec![demo_entry(restored.as_str())], 3), 40);
    assert_eq!(app.examples_version, 3);
    assert_eq!(app.examples[0].script, "print(\"hi\")\n1");
    assert!(app.hot_reload_notices.len() <= notices_before);
    let last_note = app.snackbars.last().expect("notification");
    assert_eq!(last_note.message, "Change reverted");
}

#[test]
fn prepare_script_prefixes_encoded_inputs() {
    let examples = load_examples(vec![demo_entry("print(input.name)")], 1);
    let library = ExampleLibrary::new(examples, 1);
    let mut app = ExplorerApp::new(Some(library));
    let example = app.selected_example().expect("selected example");

    assert_eq!(app.prepare_script(&example), "print(input.name)");

    app.input_values.push(("name".to_string(), "Ada".to_string()));
    let prepared = app.prepare_script(&example);
    assert_eq!(
        prepared,
        "import serde\ninput = serde.from_json(\"{\\\"name\\\":\\\"Ada\\\"}\")\nprint(input.name)"
    );
}

#[test]
fn report_links_are_assembled_from_plain_paths() {
    assert_eq!(
        koto_learning::bench::report_path("target/criterion/demo", true).as_deref(),
        Some("target/criterion/demo/report/index.html")
    );
    assert!(koto_learning::bench::report_path("target/criterion/demo", false).is_none());
    assert_eq!(
        koto_learning::bench::file_url("target/criterion/demo/report/index.html".to_string()),
        "file://target/criterion/demo/report/index.html"
    );
}

#[test]
fn grouped_examples_sort_categories() {
    let mut categorized = demo_entry("1");
    categorized.meta_json = concat_meta();
    let examples = load_examples(vec![categorized], 1);
    let library = ExampleLibrary::new(examples, 1);
    let app = ExplorerApp::new(Some(library));
    let groups = app.grouped_examples();
    assert_eq!(groups.len(), 2);
    assert_eq!(groups[0].0, "audio");
    assert_eq!(groups[1].0, "graphics");
    assert_eq!(groups[0].1[0].id, "demo");
    assert_eq!(groups[1].1[0].id, "demo");
}

fn concat_meta() -> String {
    r#"{"id":"demo","title":"Demo","description":"Test example","categories":["graphics","audio"]}"#
        .to_string()
}

#[test]
fn malformed_descriptors_are_skipped() {
    let mut bad = demo_entry("1");
    bad.meta_json = "not json at all".to_string();
    assert_eq!(load_examples(vec![bad], 1).len(), 0);

    let mut wrong_shape = demo_entry("1");
    wrong_shape.meta_json = r#"{"id":"demo","title":7,"description":"Test example"}"#.to_string();
    assert_eq!(load_examples(vec![wrong_shape], 1).len(), 0);

    let mut missing_title = demo_entry("1");
    missing_title.meta_json = r#"{"id":"demo","description":"Test example"}"#.to_string();
    assert_eq!(load_examples(vec![missing_title], 1).len(), 0);

    let good = demo_entry("1");
    let examples = load_examples(vec![good], 1);
    assert_eq!(examples.len(), 1);
    assert_eq!(examples[0].metadata.title, "Demo");
}

#[test]
fn empty_descriptor_id_defaults_to_folder_name() {
    let mut entry = demo_entry("1");
    entry.meta_json = r#"{"id":"","title":"Demo","description":"Test example"}"#.to_string();
    let examples = load_examples(vec![entry], 1);
    assert_eq!(examples.len(), 1);
    assert_eq!(examples[0].metadata.id, "demo");
}
