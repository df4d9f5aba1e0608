use std::str::FromStr;

use oxc_allocator::lsp::{
    duplicate_reports, range_overlaps, select_reports, text_edits_of, Diagnostic, DiagnosticReport,
    FixedContent, Position, Range, TextEdit,
};
use oxc_allocator::worker::{
    lies_under, plan_code_actions, ClientNotifications, CodeActionPlan, Options, Run, WorkspaceWorker,
};
use tower_lsp_server::lsp_types::Uri;

fn uri(text: &str) -> String {
    Uri::from_str(text).unwrap().to_string()
}

fn range(start: (u32, u32), end: (u32, u32)) -> Range {
    Range {
        start: Position { line: start.0, character: start.1 },
        end: Position { line: end.0, character: end.1 },
    }
}

fn report(at: Range, fix: Option<(&str, Range)>) -> DiagnosticReport {
    DiagnosticReport {
        diagnostic: Diagnostic {
            range: at,
            payload: format!("{{\"line\":{},\"message\":\"no-debugger\"}}", at.start.line),
        },
        fixed_content: fix.map(|(code, range)| FixedContent {
            message: Some(format!("Put {code:?}")),
            code: code.to_string(),
            range,
        }),
    }
}

fn some_reports() -> Vec<DiagnosticReport> {
    vec![
        report(range((0, 0), (0, 5)), Some(("let", range((0, 0), (0, 3))))),
        report(range((2, 4), (3, 1)), None),
        report(range((3, 1), (3, 9)), Some(("", range((3, 1), (3, 9))))),
        report(range((7, 0), (7, 2)), None),
    ]
}

#[test]
fn test_get_root_uri() {
    let worker = WorkspaceWorker::new(Uri::from_str("file:///root/").unwrap().to_string());

    assert_eq!(worker.get_root_uri(), &Uri::from_str("file:///root/").unwrap().to_string());
}

#[test]
fn test_is_responsible() {
    let worker = WorkspaceWorker::new(Uri::from_str("file:///path/to/root").unwrap().to_string());

    assert!(worker.is_responsible_for_uri(
        &Uri::from_str("file:///path/to/root/file.js").unwrap().to_string()
    ));
    assert!(worker.is_responsible_for_uri(
        &Uri::from_str("file:///path/to/root/folder/file.js").unwrap().to_string()
    ));
    assert!(!worker.is_responsible_for_uri(
        &Uri::from_str("file:///path/to/other/file.js").unwrap().to_string()
    ));
}

#[test]
fn responsibility_goes_by_file_paths_not_by_text() {
    let worker = WorkspaceWorker::new(uri("file:///path/to/my%20root"));
    assert!(worker.is_responsible_for_uri("file:///path/to/my%20root/file.js"));
    assert!(worker.is_responsible_for_uri("file:///path/to/my root/file.js") == false);
    assert!(worker.is_responsible_for_uri("untitled:///path/to/my%20root/file.js"));
    assert!(worker.is_responsible_for_uri("file:///path/to/my%20root"));
    assert!(!worker.is_responsible_for_uri("file:///path/to/my%20rootfile.js"));
    assert!(!worker.is_responsible_for_uri("file:///path/to"));
    assert!(!worker.is_responsible_for_uri("not a uri"));
    assert!(!worker.is_responsible_for_uri("file://host"));
}

#[test]
fn responsibility_goes_by_path_components() {
    let worker = WorkspaceWorker::new(uri("file:///path/to/root/"));
    assert!(worker.is_responsible_for_uri("file:///path/to/root/file.js"));
    assert!(worker.is_responsible_for_uri("file:///path/to/root"));
    assert!(worker.is_responsible_for_uri("file:///path//to/root/a/b"));
    assert!(!worker.is_responsible_for_uri("file:///path/to/roots/file.js"));
}

#[test]
fn responsibility_has_no_answer_without_a_root_path() {
    let worker = WorkspaceWorker::new("untitled:".to_string());
    assert_eq!(worker.try_is_responsible_for_uri("file:///path/to/root/file.js"), None);
    assert_eq!(worker.try_is_responsible_for_uri("untitled:"), Some(false));
    assert_eq!(worker.try_is_responsible_for_uri("not a uri"), Some(false));

    let rooted = WorkspaceWorker::new(uri("file:///path/to/root"));
    assert_eq!(rooted.try_is_responsible_for_uri("file:///path/to/root/file.js"), Some(true));
    assert_eq!(rooted.try_is_responsible_for_uri("file:///elsewhere/file.js"), Some(false));
    assert_eq!(rooted.try_is_responsible_for_uri("untitled:"), Some(false));
}

#[test]
fn positions_are_ordered_by_line_then_character() {
    let p = |line, character| Position { line, character };
    assert!(p(1, 5).le(&p(1, 5)));
    assert!(p(1, 5).le(&p(1, 6)));
    assert!(!p(1, 6).le(&p(1, 5)));
    assert!(p(1, 900).le(&p(2, 0)));
    assert!(!p(2, 0).le(&p(1, 900)));
    assert!(p(0, 0).le(&p(u32::MAX, u32::MAX)));
}

#[test]
fn ranges_overlap_where_each_starts_before_the_other_ends() {
    let a = range((1, 0), (2, 0));
    assert!(range_overlaps(a, a));
    assert!(range_overlaps(a, range((2, 0), (2, 5))));
    assert!(range_overlaps(range((2, 0), (2, 5)), a));
    assert!(!range_overlaps(a, range((2, 1), (2, 5))));
    assert!(!range_overlaps(range((2, 1), (2, 5)), a));
    assert!(range_overlaps(a, range((0, 0), (1, 0))));
    assert!(!range_overlaps(a, range((0, 0), (0, 99))));
    assert!(range_overlaps(a, range((0, 0), (9, 0))));
    assert!(range_overlaps(a, range((1, 3), (1, 4))));
    let inverted = range((5, 0), (4, 0));
    assert!(!range_overlaps(inverted, inverted));
}

#[test]
fn text_edits_come_from_the_reports_with_a_fix() {
    assert_eq!(
        text_edits_of(&some_reports()),
        vec![
            TextEdit { range: range((0, 0), (0, 3)), new_text: "let".to_string() },
            TextEdit { range: range((3, 1), (3, 9)), new_text: String::new() },
        ]
    );
    assert_eq!(text_edits_of(&vec![]), vec![]);
    assert_eq!(text_edits_of(&vec![report(range((0, 0), (0, 1)), None)]), vec![]);
}

#[test]
fn reports_are_selected_by_range() {
    let reports = some_reports();
    assert_eq!(select_reports(&reports, &range((0, 0), (9, 0))), vec![0, 1, 2, 3]);
    assert_eq!(select_reports(&reports, &range((3, 1), (3, 1))), vec![1, 2]);
    assert_eq!(select_reports(&reports, &range((3, 2), (3, 3))), vec![2]);
    assert_eq!(select_reports(&reports, &range((4, 0), (6, 0))), Vec::<usize>::new());
    assert_eq!(select_reports(&reports, &range((7, 2), (8, 0))), vec![3]);
    assert_eq!(select_reports(&vec![], &range((0, 0), (9, 0))), Vec::<usize>::new());
}

#[test]
fn a_report_on_the_very_range_is_selected_though_the_range_is_inverted() {
    let inverted = range((5, 0), (4, 0));
    let reports = vec![report(inverted, None), report(range((0, 0), (1, 0)), None)];
    assert!(!range_overlaps(inverted, inverted));
    assert_eq!(select_reports(&reports, &inverted), vec![0]);
}

#[test]
fn reports_are_copied_whole() {
    let reports = some_reports();
    assert_eq!(duplicate_reports(&reports), reports);
    assert_eq!(reports[0].duplicate(), reports[0]);
    assert_eq!(duplicate_reports(&vec![]), vec![]);
}

#[test]
fn new_worker_has_no_linter_and_default_options() {
    let worker = WorkspaceWorker::new(uri("file:///root/"));
    assert!(worker.needs_init_linter());
    assert_eq!(worker.options(), &Options::default());
    assert_eq!(
        Options::default(),
        Options { run: Run::OnType, config_path: None, use_nested_configs: true, fix_kind: 0 }
    );
    assert!(worker.should_lint_on_run_type(Run::OnType));
    assert!(!worker.should_lint_on_run_type(Run::OnSave));
    assert_eq!(worker.tracked_uris(), Vec::<String>::new());
    assert_eq!(worker.get_clear_diagnostics(), vec![]);
}

#[test]
fn init_linter_takes_the_options() {
    let mut worker = WorkspaceWorker::new(uri("file:///root/"));
    let options = Options {
        run: Run::OnSave,
        config_path: Some("lint.json".to_string()),
        use_nested_configs: false,
        fix_kind: 3,
    };
    worker.init_linter(&options);
    assert!(!worker.needs_init_linter());
    assert_eq!(worker.options(), &options);
    assert_eq!(options.duplicate(), options);
    assert!(worker.should_lint_on_run_type(Run::OnSave));
    assert!(!worker.should_lint_on_run_type(Run::OnType));
}

#[test]
fn linter_restarts_on_config_path_nested_configs_or_fix_kind() {
    let base = || Options {
        run: Run::OnType,
        config_path: Some("a.json".to_string()),
        use_nested_configs: true,
        fix_kind: 1,
    };
    assert!(!WorkspaceWorker::needs_linter_restart(&base(), &base()));
    assert!(!WorkspaceWorker::needs_linter_restart(&base(), &Options { run: Run::OnSave, ..base() }));
    assert!(WorkspaceWorker::needs_linter_restart(
        &base(),
        &Options { config_path: Some("b.json".to_string()), ..base() }
    ));
    assert!(WorkspaceWorker::needs_linter_restart(&base(), &Options { config_path: None, ..base() }));
    assert!(WorkspaceWorker::needs_linter_restart(&Options { config_path: None, ..base() }, &base()));
    assert!(!WorkspaceWorker::needs_linter_restart(
        &Options { config_path: None, ..base() },
        &Options { config_path: None, ..base() }
    ));
    assert!(WorkspaceWorker::needs_linter_restart(
        &base(),
        &Options { use_nested_configs: false, ..base() }
    ));
    assert!(WorkspaceWorker::needs_linter_restart(&base(), &Options { fix_kind: 2, ..base() }));
}

#[test]
fn diagnostics_are_kept_by_uri() {
    let mut worker = WorkspaceWorker::new(uri("file:///root/"));
    assert!(!worker.has_diagnostics("file:///root/a.js"));
    assert_eq!(worker.diagnostics_for("file:///root/a.js"), None);

    worker.update_diagnostics("file:///root/a.js", some_reports());
    worker.update_diagnostics("file:///root/b.js", vec![]);
    assert_eq!(worker.tracked_uris(), vec!["file:///root/a.js", "file:///root/b.js"]);
    assert_eq!(worker.diagnostics_for("file:///root/a.js"), Some(&some_reports()));
    assert_eq!(worker.diagnostics_for("file:///root/b.js"), Some(&vec![]));
    assert_eq!(worker.diagnostics_for("file:///root/c.js"), None);

    let one = vec![report(range((1, 1), (1, 2)), None)];
    worker.update_diagnostics("file:///root/a.js", duplicate_reports(&one));
    assert_eq!(worker.tracked_uris(), vec!["file:///root/a.js", "file:///root/b.js"]);
    assert_eq!(worker.diagnostics_for("file:///root/a.js"), Some(&one));

    assert_eq!(
        worker.get_clear_diagnostics(),
        vec![("file:///root/a.js".to_string(), vec![]), ("file:///root/b.js".to_string(), vec![])]
    );

    worker.remove_diagnostics("file:///root/a.js");
    assert_eq!(worker.tracked_uris(), vec!["file:///root/b.js"]);
    assert!(!worker.has_diagnostics("file:///root/a.js"));
    worker.remove_diagnostics("file:///root/a.js");
    assert_eq!(worker.tracked_uris(), vec!["file:///root/b.js"]);
    assert_eq!(worker.get_clear_diagnostics(), vec![("file:///root/b.js".to_string(), vec![])]);
}

#[test]
fn lint_file_records_only_with_a_linter() {
    let mut worker = WorkspaceWorker::new(uri("file:///root/"));
    assert_eq!(worker.lint_file("file:///root/a.js", Some(some_reports())), None);
    assert!(!worker.has_diagnostics("file:///root/a.js"));

    worker.init_linter(&Options::default());
    assert_eq!(worker.lint_file("file:///root/a.js", None), None);
    assert!(!worker.has_diagnostics("file:///root/a.js"));
    assert_eq!(worker.lint_file("file:///root/a.js", Some(some_reports())), Some(some_reports()));
    assert_eq!(worker.diagnostics_for("file:///root/a.js"), Some(&some_reports()));
    assert_eq!(worker.lint_file("file:///root/a.js", Some(vec![])), Some(vec![]));
    assert_eq!(worker.diagnostics_for("file:///root/a.js"), Some(&vec![]));
    assert_eq!(worker.lint_file("file:///root/a.js", None), None);
    assert_eq!(worker.diagnostics_for("file:///root/a.js"), Some(&vec![]));
}

fn worker_with_three_documents() -> WorkspaceWorker {
    let mut worker = WorkspaceWorker::new(uri("file:///root/"));
    worker.update_diagnostics("file:///root/a.js", some_reports());
    worker.update_diagnostics("file:///root/b.js", vec![]);
    worker.update_diagnostics("file:///root/c.js", vec![report(range((1, 1), (1, 2)), None)]);
    worker
}

#[test]
fn revalidation_keeps_what_was_linted_and_drops_the_rest() {
    let mut worker = worker_with_three_documents();
    worker.init_linter(&Options::default());
    let fresh = vec![report(range((9, 0), (9, 1)), None)];
    let linted = vec![Some(duplicate_reports(&fresh)), None, Some(vec![])];
    let changed = worker.revalidate_diagnostics(&linted);
    assert_eq!(
        changed,
        vec![
            ("file:///root/a.js".to_string(), duplicate_reports(&fresh)),
            ("file:///root/c.js".to_string(), vec![]),
        ]
    );
    assert_eq!(worker.tracked_uris(), vec!["file:///root/a.js", "file:///root/c.js"]);
    assert_eq!(worker.diagnostics_for("file:///root/a.js"), Some(&fresh));
    assert_eq!(worker.diagnostics_for("file:///root/b.js"), None);
    assert_eq!(worker.diagnostics_for("file:///root/c.js"), Some(&vec![]));
}

#[test]
fn revalidation_without_a_linter_changes_nothing() {
    let mut worker = worker_with_three_documents();
    let changed = worker.revalidate_diagnostics(&vec![None, None, None]);
    assert_eq!(changed, vec![]);
    assert_eq!(
        worker.tracked_uris(),
        vec!["file:///root/a.js", "file:///root/b.js", "file:///root/c.js"]
    );
    assert_eq!(worker.diagnostics_for("file:///root/a.js"), Some(&some_reports()));
}

#[test]
fn watched_files_change_restarts_and_revalidates() {
    let mut worker = worker_with_three_documents();
    assert!(worker.needs_init_linter());
    let told = worker.did_change_watched_files(&vec![None, Some(some_reports()), None]);
    assert_eq!(
        told,
        ClientNotifications {
            diagnostics: Some(vec![("file:///root/b.js".to_string(), some_reports())]),
            add_file_watchers: None,
            remove_file_watchers: None,
        }
    );
    assert!(!worker.needs_init_linter());
    assert_eq!(worker.tracked_uris(), vec!["file:///root/b.js"]);
}

#[test]
fn configuration_change_restarts_only_where_needed() {
    let mut worker = worker_with_three_documents();
    let quiet = Options { run: Run::OnSave, ..Options::default() };
    let told = worker.did_change_configuration(&quiet, &vec![]);
    assert_eq!(
        told,
        ClientNotifications { diagnostics: None, add_file_watchers: None, remove_file_watchers: None }
    );
    assert_eq!(worker.options(), &quiet);
    assert!(worker.needs_init_linter());
    assert_eq!(worker.tracked_uris().len(), 3);

    let loud = Options { config_path: Some("lint.json".to_string()), ..Options::default() };
    let told = worker.did_change_configuration(&loud, &vec![Some(vec![]), None, None]);
    assert_eq!(
        told,
        ClientNotifications {
            diagnostics: Some(vec![("file:///root/a.js".to_string(), vec![])]),
            add_file_watchers: None,
            remove_file_watchers: None,
        }
    );
    assert_eq!(worker.options(), &loud);
    assert!(!worker.needs_init_linter());
    assert_eq!(worker.tracked_uris(), vec!["file:///root/a.js"]);
}

#[test]
fn code_actions_are_planned_from_held_reports() {
    let worker = worker_with_three_documents();
    let all = range((0, 0), (9, 0));
    assert_eq!(
        worker.get_code_actions_or_commands("file:///root/a.js", &all, false, &vec![]),
        CodeActionPlan::PerReport(vec![0, 1, 2, 3])
    );
    assert_eq!(
        worker.get_code_actions_or_commands("file:///root/a.js", &range((3, 1), (3, 1)), true, &vec![]),
        CodeActionPlan::FixAll(vec![1, 2])
    );
    assert_eq!(
        worker.get_code_actions_or_commands("file:///root/a.js", &range((5, 0), (6, 0)), false, &vec![]),
        CodeActionPlan::PerReport(Vec::new())
    );
    assert_eq!(
        worker.get_code_actions_or_commands("file:///root/a.js", &range((5, 0), (6, 0)), true, &vec![]),
        CodeActionPlan::FixAll(Vec::new())
    );
    assert_eq!(
        worker.get_code_actions_or_commands("file:///root/b.js", &all, true, &some_reports()),
        CodeActionPlan::Nothing
    );
}

#[test]
fn code_actions_fall_back_on_what_was_linted() {
    let mut worker = worker_with_three_documents();
    let all = range((0, 0), (9, 0));
    assert_eq!(
        worker.get_code_actions_or_commands("file:///root/new.js", &all, false, &some_reports()),
        CodeActionPlan::Nothing
    );
    assert_eq!(worker.reports_for("file:///root/new.js", &some_reports()), vec![]);
    assert_eq!(worker.reports_for("file:///root/a.js", &vec![]), some_reports());
    worker.init_linter(&Options::default());
    assert_eq!(worker.reports_for("file:///root/new.js", &some_reports()), some_reports());
    assert_eq!(worker.reports_for("file:///root/a.js", &vec![]), some_reports());
    assert_eq!(worker.reports_for("file:///root/b.js", &some_reports()), vec![]);
    assert_eq!(
        worker.get_code_actions_or_commands("file:///root/new.js", &all, false, &vec![]),
        CodeActionPlan::Nothing
    );
    assert_eq!(
        worker.get_code_actions_or_commands("file:///root/new.js", &range((7, 1), (7, 1)), false, &some_reports()),
        CodeActionPlan::PerReport(vec![3])
    );
}

#[test]
fn text_edits_are_made_from_held_reports_or_what_was_linted() {
    let worker = worker_with_three_documents();
    let expected = vec![
        TextEdit { range: range((0, 0), (0, 3)), new_text: "let".to_string() },
        TextEdit { range: range((3, 1), (3, 9)), new_text: String::new() },
    ];
    assert_eq!(worker.get_diagnostic_text_edits("file:///root/a.js", &vec![]), expected);
    assert_eq!(worker.get_diagnostic_text_edits("file:///root/b.js", &some_reports()), vec![]);
    assert_eq!(worker.get_diagnostic_text_edits("file:///root/c.js", &some_reports()), vec![]);
    assert_eq!(worker.get_diagnostic_text_edits("file:///root/new.js", &some_reports()), vec![]);
    let mut worker = worker;
    worker.init_linter(&Options::default());
    assert_eq!(worker.get_diagnostic_text_edits("file:///root/a.js", &vec![]), expected);
    assert_eq!(worker.get_diagnostic_text_edits("file:///root/b.js", &some_reports()), vec![]);
    assert_eq!(worker.get_diagnostic_text_edits("file:///root/new.js", &some_reports()), expected);
    assert_eq!(worker.get_diagnostic_text_edits("file:///root/new.js", &vec![]), vec![]);
}

#[test]
fn a_worker_without_a_linter_offers_nothing_for_a_document_it_does_not_hold() {
    let worker = WorkspaceWorker::new(uri("file:///root/"));
    let all = range((0, 0), (9, 0));
    assert!(worker.needs_init_linter());
    assert_eq!(
        worker.get_code_actions_or_commands("file:///root/a.js", &all, false, &some_reports()),
        CodeActionPlan::Nothing
    );
    assert_eq!(
        worker.get_code_actions_or_commands("file:///root/a.js", &all, true, &some_reports()),
        CodeActionPlan::Nothing
    );
    assert_eq!(worker.get_diagnostic_text_edits("file:///root/a.js", &some_reports()), vec![]);
}

#[test]
fn copies_keep_the_payload_and_the_message_of_the_fix() {
    let reports = some_reports();
    let copy = reports[0].duplicate();
    assert_eq!(copy.diagnostic.payload, "{\"line\":0,\"message\":\"no-debugger\"}");
    assert_eq!(copy.diagnostic.duplicate(), reports[0].diagnostic);
    let fixed = copy.fixed_content.unwrap();
    assert_eq!(fixed.message, Some("Put \"let\"".to_string()));
    assert_eq!(fixed.duplicate(), fixed);
    let mut worker = WorkspaceWorker::new(uri("file:///root/"));
    worker.update_diagnostics("file:///root/a.js", some_reports());
    assert_eq!(worker.diagnostics_for("file:///root/a.js").unwrap()[2].diagnostic.payload,
        "{\"line\":3,\"message\":\"no-debugger\"}");
}

#[test]
fn plans_say_which_reports_and_how() {
    let reports = some_reports();
    let at = range((2, 9), (3, 4));
    assert_eq!(plan_code_actions(&reports, &at, false), CodeActionPlan::PerReport(vec![1, 2]));
    assert_eq!(plan_code_actions(&reports, &at, true), CodeActionPlan::FixAll(vec![1, 2]));
    assert_eq!(plan_code_actions(&vec![], &at, false), CodeActionPlan::Nothing);
    assert_eq!(plan_code_actions(&vec![], &at, true), CodeActionPlan::Nothing);
    let elsewhere = range((100, 0), (100, 1));
    assert_eq!(plan_code_actions(&reports, &elsewhere, true), CodeActionPlan::FixAll(Vec::new()));
}

#[test]
fn a_path_lies_under_a_root_by_its_components() {
    let some = |text: &str| Some(text.to_string());
    assert!(lies_under(&some("/path/to/root/file.js"), &some("/path/to/root")));
    assert!(lies_under(&some("/path/to/root"), &some("/path/to/root")));
    assert!(lies_under(&some("/path/to/root/file.js"), &some("/path/to/root/")));
    assert!(lies_under(&some("/path/to/root/file.js"), &some("/")));
    assert!(!lies_under(&some("/path/to/rootfile.js"), &some("/path/to/root")));
    assert!(!lies_under(&some("/path/to"), &some("/path/to/root")));
    assert!(!lies_under(&some("path/to/root/file.js"), &some("/path/to/root")));
    assert!(!lies_under(&None, &some("/path/to/root")));
    assert!(!lies_under(&None, &None));
}
