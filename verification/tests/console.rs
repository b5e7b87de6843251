use code_count::console::{diff_lines, language_table, non_interactive_preview, summary_lines};
use code_count::{
    diff_reports, scan_report_from_counts, FileCounts, LanguageCounts, LanguageKind, ScanOptions, ScanReport,
};

fn counted(name: &str, kind: LanguageKind, path: &str, code: usize, comments: usize, blanks: usize) -> LanguageCounts {
    LanguageCounts {
        name: name.to_owned(),
        kind,
        literate: false,
        blanks,
        code,
        comments,
        files: vec![FileCounts { path: path.to_owned(), blanks, code, comments }],
    }
}

fn scanned(languages: Vec<LanguageCounts>, options: &ScanOptions) -> ScanReport {
    scan_report_from_counts("project".to_owned(), languages, options)
}

#[test]
fn by_language_prints_language_breakdown() {
    let report = scanned(
        vec![
            counted("Rust", LanguageKind::Other, "project/main.rs", 3, 0, 0),
            counted("Markdown", LanguageKind::Markdown, "project/README.md", 2, 0, 1),
        ],
        &ScanOptions::default(),
    );

    let table = language_table(&report);

    assert!(table.contains("Languages"));
    assert!(table.contains("Rust"));
    assert!(table.contains("Markdown"));
    assert!(table.contains("Documents"));
    let expected = format!(
        "Languages:\n{:<16} {:>8} {:>8} {:>8} {:>10} {:>8} {:>10}\n{:<16} {:>8} {:>8} {:>8} {:>10} {:>8} {:>10}\n{:<16} {:>8} {:>8} {:>8} {:>10} {:>8} {:>10}\n",
        "Name", "Files", "Total", "Code", "Comments", "Blank", "Category",
        "Markdown", 1, 3, 2, 0, 1, "Documents",
        "Rust", 1, 3, 3, 0, 0, "Code",
    );
    assert_eq!(table, expected);
}

#[test]
fn config_file_can_set_scan_defaults_and_ignored_paths() {
    let options = ScanOptions { include_blank_lines: false, include_comments: true, ignored_paths: Vec::new() };
    let report = scanned(vec![counted("Rust", LanguageKind::Other, "project/src/main.rs", 3, 0, 1)], &options);

    let summary = summary_lines(&report.summary);

    assert!(summary.contains("Files: 1"));
    assert!(summary.contains("Blank lines: 0"));
    assert!(summary.contains("Code lines: 3"));
}

#[test]
fn summary_prints_one_count_per_line() {
    let report = scanned(
        vec![counted("Rust", LanguageKind::Other, "project/main.rs", 3, 1, 1)],
        &ScanOptions::default(),
    );

    assert_eq!(
        summary_lines(&report.summary),
        "Root: project\nFiles: 1\nTotal lines: 5\nCode lines: 3\nComment lines: 1\nDocument lines: 0\nBlank lines: 1\n"
    );
}

#[test]
fn diff_prints_summary_and_language_deltas_between_snapshots() {
    let before = scanned(vec![counted("Rust", LanguageKind::Other, "a/main.rs", 1, 0, 0)], &ScanOptions::default());
    let after = scanned(vec![counted("Rust", LanguageKind::Other, "b/main.rs", 3, 0, 0)], &ScanOptions::default());

    let text = diff_lines(&diff_reports(&before, &after));

    assert!(text.contains("Scan diff"));
    assert!(text.contains("Code lines: +2"));
    assert!(text.contains("Rust"));
    assert!(text.contains("+2"));
    assert_eq!(
        text,
        format!(
            "Scan diff\nBefore: project\nAfter: project\nFiles: +0\nTotal lines: +2\nCode lines: +2\n\
             Comment lines: +0\nDocument lines: +0\nBlank lines: +0\n\nLanguages:\n\
             {:<16} {:>8} {:>8} {:>8} {:>10} {:>8} {:>10}\n{:<16} {:>8} {:>8} {:>8} {:>10} {:>8} {:>10}\n",
            "Name", "Files", "Total", "Code", "Comments", "Blank", "Documents",
            "Rust", "+0", "+2", "+2", "+0", "+0", "+0",
        )
    );
}

#[test]
fn diff_of_equal_scans_has_no_language_table() {
    let report = scanned(vec![counted("Rust", LanguageKind::Other, "a/main.rs", 1, 0, 0)], &ScanOptions::default());

    let text = diff_lines(&diff_reports(&report, &report));

    assert!(text.ends_with("Blank lines: +0\n"));
    assert!(!text.contains("Languages"));
}

#[test]
fn diff_writes_negative_changes_with_a_minus() {
    let before = scanned(vec![counted("Rust", LanguageKind::Other, "a/main.rs", 5, 0, 0)], &ScanOptions::default());
    let after = scanned(Vec::new(), &ScanOptions::default());

    let text = diff_lines(&diff_reports(&before, &after));

    assert!(text.contains("Files: -1\n"));
    assert!(text.contains("Code lines: -5\n"));
}

#[test]
fn preview_names_root_files_and_lines() {
    let report = scanned(
        vec![counted("Rust", LanguageKind::Other, "project/main.rs", 3, 1, 1)],
        &ScanOptions::default(),
    );

    assert_eq!(
        non_interactive_preview(&report),
        "TUI preview\nRoot: project\nFiles: 1\nTotal lines: 5\n\
         Run this command in an interactive terminal for the full TUI.\n"
    );
}
