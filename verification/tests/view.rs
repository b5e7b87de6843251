use code_count::view::{
    checkbox, command_label, composition_lines, composition_row, explorer_detail_lines, explorer_language_lines,
    file_detail_lines, footer_line, format_file_stat, header_line, key_chip, language_lines, language_visible_code,
    panels_fit, percentage, report_control_lines, report_output_path, report_export_lines_to, report_file_name, report_format_label,
    report_preview_lines_to, segment_bar, segment_width, stats_lines, status_label, toggle_label, view_title,
    TextLine, Tone,
};
use code_count::{
    scan_report_from_counts, AppState, AppView, FileCounts, FileStat, LanguageCounts, LanguageKind, ReportFormat,
    ScanOptions, ScanReport,
};

fn text_of(line: &TextLine) -> String {
    line.spans.iter().map(|s| s.text.as_str()).collect()
}

fn texts(lines: &[TextLine]) -> Vec<String> {
    lines.iter().map(text_of).collect()
}

fn language(name: &str, kind: LanguageKind, files: Vec<(&str, usize, usize, usize)>) -> LanguageCounts {
    let files: Vec<FileCounts> = files
        .into_iter()
        .map(|(path, code, comments, blanks)| FileCounts { path: path.to_owned(), blanks, code, comments })
        .collect();
    LanguageCounts {
        name: name.to_owned(),
        kind,
        literate: false,
        blanks: files.iter().map(|f| f.blanks).sum(),
        code: files.iter().map(|f| f.code).sum(),
        comments: files.iter().map(|f| f.comments).sum(),
        files,
    }
}

fn sample() -> ScanReport {
    scan_report_from_counts(
        "project".to_owned(),
        vec![
            language("Rust", LanguageKind::Other, vec![("project/main.rs", 3, 1, 1), ("project/lib.rs", 3, 0, 0)]),
            language("Markdown", LanguageKind::Markdown, vec![("project/README.md", 2, 0, 1)]),
        ],
        &ScanOptions::default(),
    )
}

#[test]
fn dashboard_renders_summary_composition_languages_and_keys() {
    let state = AppState::new(sample());
    assert!(panels_fit(&state));

    assert_eq!(view_title(state.current_view()), "A. Project Dashboard");
    assert_eq!(text_of(&header_line(&state)), "code-count  project  scan complete");

    let stats = texts(&stats_lines(&state));
    assert_eq!(stats[0], "Total 11   Files 3");
    assert_eq!(stats[1].chars().count(), 64);
    assert_eq!(stats[2], "code 6   comments 1");
    assert_eq!(stats[3], "docs 2   blank 2");

    let composition = texts(&composition_lines(&state));
    assert_eq!(composition.len(), 4);
    assert!(composition[0].starts_with("Code     "));
    assert!(composition[0].ends_with(" 54%"));

    let languages = texts(&language_lines(&state));
    assert_eq!(languages[0], format!("{:<14}{:>8}  {}", "Rust", 6, "Code"));
    assert_eq!(languages[1], format!("{:<14}{:>8}  {}", "Markdown", 2, "Documents"));

    assert_eq!(text_of(&footer_line(&state)), "[Tab] panes | [r] rescan | [q] quit");
}

#[test]
fn stats_bar_splits_its_width_by_category() {
    let line = segment_bar(2, 1, 1, 0, 8);
    let parts: Vec<String> = line.spans.iter().map(|s| s.text.clone()).collect();

    assert_eq!(parts, vec!["####".to_owned(), "==".to_owned(), "++".to_owned(), "".to_owned()]);
    assert_eq!(line.spans[0].style.fg, Some(Tone::Code));
    assert_eq!(line.spans[3].style.fg, Some(Tone::Muted));
}

#[test]
fn segment_width_keeps_one_character_for_small_parts() {
    assert_eq!(segment_width(0, 100, 64), 0);
    assert_eq!(segment_width(1, 1000, 64), 1);
    assert_eq!(segment_width(50, 100, 64), 32);
    assert_eq!(percentage(1, 3), 33);
    assert_eq!(percentage(3, 3), 100);
}

#[test]
fn composition_row_fills_twenty_cells() {
    let row = composition_row("Code", 1, 4, Tone::Code, '#');

    assert_eq!(text_of(&row), "Code     #####---------------  25%");
    let empty = composition_row("Blank", 0, 4, Tone::Muted, '.');
    assert_eq!(text_of(&empty), "Blank    --------------------   0%");
    let tiny = composition_row("Docs", 1, 1000, Tone::Docs, '+');
    assert_eq!(text_of(&tiny), "Docs     +-------------------   0%");
}

#[test]
fn no_languages_found_on_an_empty_dashboard() {
    let state = AppState::new(scan_report_from_counts("empty".to_owned(), Vec::new(), &ScanOptions::default()));

    assert_eq!(texts(&language_lines(&state)), vec!["No languages found".to_owned()]);
    assert_eq!(
        texts(&explorer_detail_lines(&state)),
        vec!["No language selected".to_owned(), "Clear the filter to show all languages.".to_owned()]
    );
}

#[test]
fn explorer_renders_language_list_and_selected_details() {
    let mut state = AppState::new(sample());
    state.set_view(AppView::Explorer);

    assert_eq!(view_title(state.current_view()), "B. Explorer + Details");
    let list = texts(&explorer_language_lines(&state));
    assert_eq!(list[0], "Filter:");
    assert_eq!(list[1], "");
    assert_eq!(list[2], format!("> {:<16}{:>4}% {:>4}", "Rust", 72, "code"));
    assert_eq!(list[3], format!("  {:<16}{:>4}% {:>4}", "Markdown", 27, "doc"));

    let details = texts(&explorer_detail_lines(&state));
    assert_eq!(details[0], "Rust");
    assert_eq!(details[3], "Category Code");
    assert_eq!(details[4], "Files 2");
    assert_eq!(details[5], "Total 8");
    assert_eq!(details[11], "Largest files");
    assert_eq!(details[12], format!("{:<28} total {:>5} code {:>5}", "main.rs", 5, 3));
    assert_eq!(details[13], format!("{:<28} total {:>5} code {:>5}", "lib.rs", 3, 3));
    assert_eq!(text_of(&footer_line(&state)), "[Up/Down] select | [/] filter | [Tab] view | [q] quit");
}

#[test]
fn explorer_details_include_files_for_selected_language() {
    let mut state = AppState::new(sample());
    state.set_view(AppView::Explorer);
    state.select_next_language();

    let details = texts(&explorer_detail_lines(&state));
    assert_eq!(details[0], "Markdown");
    assert_eq!(details[3], "Category Documents");
    assert_eq!(details[8], "Documents 2");
    assert_eq!(details[12], format!("{:<28} total {:>5} code {:>5}", "README.md", 3, 0));
}

#[test]
fn explorer_filter_line_shows_the_filter() {
    let mut state = AppState::new(sample());
    state.set_language_filter("rust");

    let list = texts(&explorer_language_lines(&state));
    assert_eq!(list[0], "Filter: rust");
    assert_eq!(list.len(), 3);

    state.set_language_filter("zzz");
    let none = texts(&explorer_language_lines(&state));
    assert_eq!(none[2], "No languages found");
}

#[test]
fn file_details_list_eight_files_and_count_the_rest() {
    let files: Vec<(String, usize)> = (0..10).map(|i| (format!("project/f{}.rs", i), 20 - i)).collect();
    let counts = language(
        "Rust",
        LanguageKind::Other,
        files.iter().map(|(p, c)| (p.as_str(), *c, 0, 0)).collect(),
    );
    let report = scan_report_from_counts("project".to_owned(), vec![counts], &ScanOptions::default());
    let rust = &report.languages[0];
    let shown: Vec<String> = rust.file_stats.iter().map(|f| f.path.clone()).collect();

    let lines = texts(&file_detail_lines(rust, &shown));
    assert_eq!(lines.len(), 9);
    assert_eq!(lines[8], "... 2 more files");

    let mut bare = rust.clone();
    bare.file_stats = Vec::new();
    let none = texts(&file_detail_lines(&bare, &Vec::new()));
    assert_eq!(none, vec!["No files found".to_owned()]);
}

#[test]
fn file_row_pads_path_and_counts() {
    let stat = FileStat {
        path: "project/src/main.rs".to_owned(),
        total_lines: 12,
        blank_lines: 1,
        comment_lines: 2,
        document_lines: 0,
        code_lines: 9,
    };

    assert_eq!(format_file_stat(&stat, "src/main.rs"), format!("{:<28} total {:>5} code {:>5}", "src/main.rs", 12, 9));
}

#[test]
fn report_view_renders_export_controls_and_preview() {
    let mut state = AppState::new(sample());
    state.set_view(AppView::Report);

    assert_eq!(view_title(state.current_view()), "C. Report Builder");
    assert_eq!(command_label(&state), "code-count report");
    assert_eq!(status_label(&state), "interactive");

    let controls = texts(&report_control_lines(&state));
    assert_eq!(
        controls,
        vec![
            "Report sections".to_owned(),
            "[x] Summary".to_owned(),
            "[x] Languages".to_owned(),
            "[x] Documentation ratio".to_owned(),
            "[ ] Per-file table".to_owned(),
            "[ ] Save history snapshot".to_owned(),
        ]
    );

    let export = texts(&report_export_lines_to(&state, "project/code-count-report.json"));
    assert_eq!(export[0], "Format JSON   Target project/code-count-report.json");
    assert_eq!(export[1], "Language details on   File details off");

    let preview = texts(&report_preview_lines_to(&state, "project/code-count-report.json"));
    assert_eq!(preview[0], "# Project Line Report");
    assert_eq!(preview[1], "- Root: project");
    assert_eq!(preview[2], "Target project/code-count-report.json");
    assert_eq!(preview[5], "- Total lines: 11");
    assert_eq!(preview[11], "Languages included 2");
    assert_eq!(preview[12], "Files included no");
    assert_eq!(text_of(&footer_line(&state)), "[Left/Right] format | [Space] toggle | [e] export | [q] quit");
}

#[test]
fn report_export_key_writes_file_and_updates_status() {
    let mut state = AppState::new(sample());
    state.set_view(AppView::Report);
    state.set_report_status("Exported code-count-report.json");

    let export = texts(&report_export_lines_to(&state, "t"));
    assert_eq!(export[2], "Exported code-count-report.json");
    let preview = texts(&report_preview_lines_to(&state, "t"));
    assert_eq!(preview[preview.len() - 1], "Exported code-count-report.json");
    assert_eq!(preview[preview.len() - 2], "");
}

#[test]
fn preview_counts_files_when_file_details_are_on() {
    let mut state = AppState::new(sample());
    state.set_view(AppView::Report);
    code_count::state::handle_key(&mut state, code_count::state::KeyCode::Char('f'));

    let preview = texts(&report_preview_lines_to(&state, "t"));
    assert_eq!(preview[12], "Files included 3");
}

#[test]
fn labels_of_formats_checkboxes_and_keys() {
    assert_eq!(report_format_label(ReportFormat::Json), "JSON");
    assert_eq!(report_format_label(ReportFormat::Markdown), "Markdown");
    assert_eq!(report_format_label(ReportFormat::Html), "HTML");
    assert_eq!(report_format_label(ReportFormat::Csv), "CSV");
    assert_eq!(checkbox(true), "x");
    assert_eq!(checkbox(false), " ");
    assert_eq!(toggle_label(true), "on");
    assert_eq!(toggle_label(false), "off");
    assert_eq!(key_chip("q").text, "[q]");
    assert_eq!(key_chip("q").style.bg, Some(Tone::KeyBackground));
    assert_eq!(report_file_name(ReportFormat::Csv), "code-count-report.csv");
    assert_eq!(view_title(AppView::Report), "C. Report Builder");
}

#[test]
fn footer_shows_filter_keys_while_editing() {
    let mut state = AppState::new(sample());
    state.set_view(AppView::Explorer);
    state.start_language_filter();

    assert_eq!(
        text_of(&footer_line(&state)),
        "type filter | [Backspace] delete | [Enter] apply | [Esc] done"
    );
}

#[test]
fn visible_code_of_a_document_is_its_document_lines() {
    let report = sample();
    let rust = report.languages.iter().find(|l| l.name == "Rust").expect("rust");
    let markdown = report.languages.iter().find(|l| l.name == "Markdown").expect("markdown");

    assert_eq!(language_visible_code(rust), 6);
    assert_eq!(language_visible_code(markdown), 2);
}

#[test]
fn panels_do_not_fit_counts_that_overflow() {
    let mut report = sample();
    report.categories.code = usize::MAX;
    let state = AppState::new(report);

    assert!(!panels_fit(&state));
}

#[test]
fn export_target_is_the_report_file_in_the_root() {
    let state = AppState::new(sample());
    let target = report_output_path(&state);

    assert!(target.starts_with("project"));
    assert!(target.ends_with("code-count-report.json"));
    assert!(target.len() <= "project".len() + 1 + "code-count-report.json".len());
}
