use code_count::state::{
    handle_key, handle_key_event, next_report_format, previous_report_format, KeyAction, KeyCode, KeyEvent,
    KeyEventKind,
};
use code_count::{
    scan_report_from_counts, AppState, AppView, FileCounts, LanguageCounts, LanguageKind, ReportFormat, ScanOptions,
    ScanReport, TuiOptions,
};

fn one_file(name: &str, kind: LanguageKind, path: &str, code: usize) -> LanguageCounts {
    LanguageCounts {
        name: name.to_owned(),
        kind,
        literate: false,
        blanks: 0,
        code,
        comments: 0,
        files: vec![FileCounts { path: path.to_owned(), blanks: 0, code, comments: 0 }],
    }
}

fn project(languages: Vec<LanguageCounts>) -> ScanReport {
    scan_report_from_counts("project".to_owned(), languages, &ScanOptions::default())
}

fn rust_and_markdown() -> ScanReport {
    project(vec![
        one_file("Rust", LanguageKind::Other, "project/main.rs", 1),
        one_file("Markdown", LanguageKind::Markdown, "project/README.md", 1),
    ])
}

fn three_languages() -> ScanReport {
    project(vec![
        one_file("Rust", LanguageKind::Other, "project/main.rs", 1),
        one_file("Markdown", LanguageKind::Markdown, "project/README.md", 1),
        one_file("Python", LanguageKind::Other, "project/script.py", 1),
    ])
}

fn selected_name(state: &AppState) -> String {
    state.selected_language().expect("selected language").name.clone()
}

fn press(code: KeyCode) -> KeyEvent {
    KeyEvent { code, kind: KeyEventKind::Press }
}

#[test]
fn app_state_starts_on_dashboard_and_cycles_views() {
    let mut state = AppState::new(rust_and_markdown());

    assert_eq!(state.current_view(), AppView::Dashboard);

    state.next_view();
    assert_eq!(state.current_view(), AppView::Explorer);

    state.next_view();
    assert_eq!(state.current_view(), AppView::Report);

    state.next_view();
    assert_eq!(state.current_view(), AppView::Dashboard);
}

#[test]
fn app_state_can_jump_to_numbered_views() {
    let mut state = AppState::new(rust_and_markdown());

    state.set_view(AppView::Report);
    assert_eq!(state.current_view(), AppView::Report);

    state.set_view(AppView::Explorer);
    assert_eq!(state.current_view(), AppView::Explorer);
}

#[test]
fn app_state_can_rescan_root_path() {
    let mut state = AppState::new(project(vec![one_file("Rust", LanguageKind::Other, "project/main.rs", 1)]));
    let mut rescanned = one_file("Rust", LanguageKind::Other, "project/main.rs", 1);
    rescanned.files.push(FileCounts { path: "project/lib.rs".to_owned(), blanks: 0, code: 1, comments: 0 });
    rescanned.code = 2;

    state.rescan(project(vec![rescanned]));

    assert_eq!(state.report().summary.files, 2);
}

#[test]
fn rescan_keeps_the_selection_within_the_new_list() {
    let mut state = AppState::new(three_languages());
    state.select_previous_language();
    assert_eq!(state.selected_language_index(), 2);

    state.rescan(project(vec![one_file("Rust", LanguageKind::Other, "project/main.rs", 1)]));

    assert_eq!(state.selected_language_index(), 0);
    assert_eq!(selected_name(&state), "Rust");
}

#[test]
fn explorer_selection_moves_between_languages() {
    let mut state = AppState::new(rust_and_markdown());

    let first_language = selected_name(&state);
    state.select_next_language();
    let second_language = selected_name(&state);

    assert_ne!(first_language, second_language);

    state.select_previous_language();
    assert_eq!(selected_name(&state), first_language);
}

#[test]
fn explorer_selection_wraps_at_language_list_edges() {
    let mut state = AppState::new(three_languages());
    assert_eq!(state.filtered_languages().len(), 3);

    let first_language = selected_name(&state);
    state.select_previous_language();
    let last_language = selected_name(&state);

    assert_ne!(first_language, last_language);

    state.select_next_language();
    assert_eq!(selected_name(&state), first_language);
}

#[test]
fn explorer_ignores_key_release_when_selecting_languages() {
    let mut state = AppState::new(three_languages());
    state.set_view(AppView::Explorer);
    assert_eq!(state.filtered_languages().len(), 3);

    let first_language = selected_name(&state);
    handle_key_event(&mut state, press(KeyCode::Down));
    let second_language = selected_name(&state);
    handle_key_event(&mut state, KeyEvent { code: KeyCode::Down, kind: KeyEventKind::Release });

    assert_ne!(first_language, second_language);
    assert_eq!(selected_name(&state), second_language);
}

#[test]
fn explorer_language_filter_limits_visible_languages() {
    let mut state = AppState::new(rust_and_markdown());
    state.set_view(AppView::Explorer);
    state.set_language_filter("rust");

    let names: Vec<String> = state.filtered_languages().iter().map(|l| l.name.clone()).collect();

    assert_eq!(state.language_filter(), "rust");
    assert_eq!(names, vec!["Rust".to_owned()]);
}

#[test]
fn explorer_filter_can_be_edited_from_key_events() {
    let mut state = AppState::new(rust_and_markdown());
    state.set_view(AppView::Explorer);

    handle_key(&mut state, KeyCode::Char('/'));
    assert!(state.is_editing_language_filter());
    for value in ['r', 'u', 's', 't'] {
        handle_key(&mut state, KeyCode::Char(value));
    }
    handle_key(&mut state, KeyCode::Enter);

    let names: Vec<String> = state.filtered_languages().iter().map(|l| l.name.clone()).collect();
    assert!(!state.is_editing_language_filter());
    assert_eq!(state.language_filter(), "rust");
    assert_eq!(names, vec!["Rust".to_owned()]);
}

#[test]
fn filter_backspace_and_clear_show_all_languages_again() {
    let mut state = AppState::new(rust_and_markdown());
    state.set_view(AppView::Explorer);
    handle_key(&mut state, KeyCode::Char('/'));
    handle_key(&mut state, KeyCode::Char('m'));
    assert_eq!(state.filtered_languages().len(), 1);
    handle_key(&mut state, KeyCode::Backspace);
    assert_eq!(state.filtered_languages().len(), 2);
    handle_key(&mut state, KeyCode::Esc);

    state.set_language_filter("zzz");
    assert_eq!(state.filtered_languages().len(), 0);
    assert!(state.selected_language().is_none());
    state.clear_language_filter();
    assert_eq!(state.filtered_languages().len(), 2);
}

#[test]
fn filter_ignores_case() {
    let mut state = AppState::new(rust_and_markdown());
    state.set_language_filter("MARK");

    assert_eq!(selected_name(&state), "Markdown");
}

#[test]
fn report_state_defaults_to_json_with_language_details() {
    let state = AppState::new(rust_and_markdown());

    assert_eq!(state.report_format(), ReportFormat::Json);
    assert!(state.includes_language_details());
    assert!(!state.includes_file_details());
}

#[test]
fn app_state_can_start_from_tui_options() {
    let state = AppState::new_with_options(
        rust_and_markdown(),
        TuiOptions { initial_view: AppView::Report, report_format: ReportFormat::Csv },
    );

    assert_eq!(state.current_view(), AppView::Report);
    assert_eq!(state.report_format(), ReportFormat::Csv);
}

#[test]
fn report_state_cycles_format_and_toggles_details_from_key_events() {
    let mut state = AppState::new(rust_and_markdown());
    state.set_view(AppView::Report);

    handle_key(&mut state, KeyCode::Right);
    assert_eq!(state.report_format(), ReportFormat::Markdown);

    handle_key(&mut state, KeyCode::Right);
    assert_eq!(state.report_format(), ReportFormat::Html);

    handle_key(&mut state, KeyCode::Right);
    assert_eq!(state.report_format(), ReportFormat::Csv);

    handle_key(&mut state, KeyCode::Left);
    assert_eq!(state.report_format(), ReportFormat::Html);

    handle_key(&mut state, KeyCode::Char('l'));
    assert!(!state.includes_language_details());

    handle_key(&mut state, KeyCode::Char('f'));
    assert!(state.includes_file_details());

    handle_key(&mut state, KeyCode::Char(' '));
    assert!(!state.includes_file_details());
}

#[test]
fn file_details_bring_language_details_back() {
    let mut state = AppState::new(rust_and_markdown());
    state.set_view(AppView::Report);
    handle_key(&mut state, KeyCode::Char('l'));
    assert!(!state.includes_language_details());

    handle_key(&mut state, KeyCode::Char('f'));

    assert!(state.includes_file_details());
    assert!(state.includes_language_details());
    let options = state.render_options();
    assert!(options.include_file_details);
    assert!(options.include_language_details);
}

#[test]
fn keys_quit_rescan_and_export() {
    let mut state = AppState::new(rust_and_markdown());

    assert_eq!(handle_key(&mut state, KeyCode::Char('q')), KeyAction::Quit);
    assert_eq!(handle_key(&mut state, KeyCode::Char('r')), KeyAction::Rescan);
    assert_eq!(handle_key(&mut state, KeyCode::Char('e')), KeyAction::Continue);
    handle_key(&mut state, KeyCode::Char('3'));
    assert_eq!(state.current_view(), AppView::Report);
    assert_eq!(handle_key(&mut state, KeyCode::Char('e')), KeyAction::Export);
    handle_key(&mut state, KeyCode::Char('1'));
    assert_eq!(state.current_view(), AppView::Dashboard);
    handle_key(&mut state, KeyCode::Tab);
    assert_eq!(state.current_view(), AppView::Explorer);
    handle_key(&mut state, KeyCode::Char('2'));
    assert_eq!(state.current_view(), AppView::Explorer);
}

#[test]
fn three_tabs_return_to_the_same_view() {
    let mut state = AppState::new(rust_and_markdown());
    state.set_view(AppView::Explorer);
    for _ in 0..3 {
        handle_key(&mut state, KeyCode::Tab);
    }

    assert_eq!(state.current_view(), AppView::Explorer);
}

#[test]
fn formats_cycle_through_all_four() {
    let mut format = ReportFormat::Json;
    for _ in 0..4 {
        format = next_report_format(format);
    }
    assert_eq!(format, ReportFormat::Json);
    assert_eq!(next_report_format(ReportFormat::Json), ReportFormat::Markdown);
    assert_eq!(previous_report_format(ReportFormat::Json), ReportFormat::Csv);
    assert_eq!(previous_report_format(next_report_format(ReportFormat::Html)), ReportFormat::Html);
}

#[test]
fn next_then_previous_selection_comes_back() {
    let mut state = AppState::new(three_languages());
    state.select_next_language();
    let before = state.selected_language_index();

    state.select_next_language();
    state.select_previous_language();

    assert_eq!(state.selected_language_index(), before);
}

#[test]
fn export_status_is_kept() {
    let mut state = AppState::new(rust_and_markdown());
    assert_eq!(state.report_status(), None);

    state.set_report_status("Exported code-count-report.json");

    assert_eq!(state.report_status(), Some("Exported code-count-report.json"));
}

#[test]
fn no_language_is_selected_in_an_empty_report() {
    let mut state = AppState::new(project(Vec::new()));

    assert!(state.selected_language().is_none());
    state.select_next_language();
    state.select_previous_language();
    assert_eq!(state.selected_language_index(), 0);
}

#[test]
fn export_records_the_file_name() {
    let mut state = AppState::new(rust_and_markdown());

    state.record_export("code-count-report.md");

    assert_eq!(state.report_status(), Some("Exported code-count-report.md"));
}
