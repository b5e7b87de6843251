use code_count::model::{counts_fit_check, file_stat_from_report, is_document_language, language_stat_from_counts};
use code_count::diff::{delta, reports_fit_for_diff};
use code_count::{
    diff_reports, scan_report_from_counts, FileCounts, LanguageCounts, LanguageKind, LanguageStat, LineCategories,
    ScanOptions, ScanReport, ScanSummary,
};

fn file_counts(path: &str, code: usize, comments: usize, blanks: usize) -> FileCounts {
    FileCounts { path: path.to_owned(), blanks, code, comments }
}

fn counts(name: &str, kind: LanguageKind, files: Vec<FileCounts>) -> LanguageCounts {
    let blanks = files.iter().map(|f| f.blanks).sum();
    let code = files.iter().map(|f| f.code).sum();
    let comments = files.iter().map(|f| f.comments).sum();
    LanguageCounts { name: name.to_owned(), kind, literate: false, blanks, code, comments, files }
}

fn rust_main() -> FileCounts {
    file_counts("sample/main.rs", 3, 1, 1)
}

fn markdown_readme() -> FileCounts {
    file_counts("sample/README.md", 2, 0, 1)
}

fn language_stat(
    name: &str,
    files: usize,
    total_lines: usize,
    code_lines: usize,
    comment_lines: usize,
    document_lines: usize,
    blank_lines: usize,
) -> LanguageStat {
    LanguageStat {
        name: name.to_owned(),
        files,
        total_lines,
        blank_lines,
        comment_lines,
        document_lines,
        code_lines,
        is_document: document_lines > 0,
        file_stats: Vec::new(),
    }
}

fn report_with_languages(languages: &[LanguageStat]) -> ScanReport {
    let mut summary = ScanSummary {
        root: "sample".to_owned(),
        files: 0,
        total_lines: 0,
        blank_lines: 0,
        comment_lines: 0,
        document_lines: 0,
        code_lines: 0,
    };
    let mut categories = LineCategories { code: 0, comments: 0, documents: 0, blanks: 0 };
    for language in languages {
        summary.files += language.files;
        summary.total_lines += language.total_lines;
        summary.blank_lines += language.blank_lines;
        summary.comment_lines += language.comment_lines;
        summary.document_lines += language.document_lines;
        summary.code_lines += language.code_lines;
        categories.code += language.code_lines;
        categories.comments += language.comment_lines;
        categories.documents += language.document_lines;
        categories.blanks += language.blank_lines;
    }
    ScanReport { summary, categories, languages: languages.to_vec() }
}

#[test]
fn default_options_include_blank_lines_and_comments() {
    let options = ScanOptions::default();

    assert!(options.include_blank_lines);
    assert!(options.include_comments);
    assert!(options.ignored_paths.is_empty());
}

#[test]
fn scan_report_preserves_root_path() {
    let options = ScanOptions::default();
    let report = scan_report_from_counts("sample".to_owned(), Vec::new(), &options);

    assert_eq!(report.summary.root, "sample");
}

#[test]
fn scan_report_counts_rust_code_comments_and_blanks() {
    let languages = vec![counts("Rust", LanguageKind::Other, vec![rust_main()])];
    let report = scan_report_from_counts("sample".to_owned(), languages, &ScanOptions::default());

    assert_eq!(report.summary.files, 1);
    assert_eq!(report.summary.total_lines, 5);
    assert_eq!(report.summary.code_lines, 3);
    assert_eq!(report.summary.comment_lines, 1);
    assert_eq!(report.summary.document_lines, 0);
    assert_eq!(report.summary.blank_lines, 1);
}

#[test]
fn scan_report_includes_language_stats_and_document_category() {
    let languages = vec![
        counts("Markdown", LanguageKind::Markdown, vec![markdown_readme()]),
        counts("Rust", LanguageKind::Other, vec![rust_main()]),
    ];
    let report = scan_report_from_counts("sample".to_owned(), languages, &ScanOptions::default());

    assert_eq!(report.summary.files, 2);
    assert_eq!(report.summary.total_lines, 8);
    assert_eq!(report.categories.code, 3);
    assert_eq!(report.categories.comments, 1);
    assert_eq!(report.categories.documents, 2);
    assert_eq!(report.categories.blanks, 2);

    let rust = report.languages.iter().find(|language| language.name == "Rust").expect("Rust language stat");
    assert_eq!(rust.files, 1);
    assert_eq!(rust.code_lines, 3);
    assert!(!rust.is_document);

    let markdown =
        report.languages.iter().find(|language| language.name == "Markdown").expect("Markdown language stat");
    assert_eq!(markdown.files, 1);
    assert_eq!(markdown.code_lines, 0);
    assert_eq!(markdown.comment_lines, 0);
    assert_eq!(markdown.document_lines, 2);
    assert!(markdown.is_document);
}

#[test]
fn scan_report_includes_file_stats_per_language() {
    let languages = vec![
        counts("Rust", LanguageKind::Other, vec![file_counts("sample/lib.rs", 3, 0, 0), rust_main()]),
        counts("Markdown", LanguageKind::Markdown, vec![markdown_readme()]),
    ];
    let report = scan_report_from_counts("sample".to_owned(), languages, &ScanOptions::default());

    let rust = report.languages.iter().find(|language| language.name == "Rust").expect("Rust language stat");
    assert_eq!(rust.file_stats.len(), 2);
    assert_eq!(rust.file_stats[0].path, "sample/main.rs");
    assert_eq!(rust.file_stats[0].total_lines, 5);
    assert_eq!(rust.file_stats[0].code_lines, 3);
    assert_eq!(rust.file_stats[0].comment_lines, 1);
    assert_eq!(rust.file_stats[0].document_lines, 0);
    assert_eq!(rust.file_stats[0].blank_lines, 1);
    assert_eq!(rust.file_stats[1].path, "sample/lib.rs");

    let markdown =
        report.languages.iter().find(|language| language.name == "Markdown").expect("Markdown language stat");
    assert_eq!(markdown.file_stats.len(), 1);
    assert_eq!(markdown.file_stats[0].path, "sample/README.md");
    assert_eq!(markdown.file_stats[0].total_lines, 3);
    assert_eq!(markdown.file_stats[0].code_lines, 0);
    assert_eq!(markdown.file_stats[0].comment_lines, 0);
    assert_eq!(markdown.file_stats[0].document_lines, 2);
    assert_eq!(markdown.file_stats[0].blank_lines, 1);
}

#[test]
fn scan_report_orders_languages_largest_first_then_by_name() {
    let languages = vec![
        counts("Python", LanguageKind::Other, vec![file_counts("a.py", 2, 0, 0)]),
        counts("Rust", LanguageKind::Other, vec![file_counts("b.rs", 5, 0, 0)]),
        counts("Go", LanguageKind::Other, vec![file_counts("c.go", 2, 0, 0)]),
    ];
    let report = scan_report_from_counts("sample".to_owned(), languages, &ScanOptions::default());
    let names: Vec<&str> = report.languages.iter().map(|l| l.name.as_str()).collect();

    assert_eq!(names, vec!["Rust", "Go", "Python"]);
}

#[test]
fn scan_report_orders_files_of_equal_size_by_path() {
    let languages = vec![counts(
        "Rust",
        LanguageKind::Other,
        vec![file_counts("src/b.rs", 1, 0, 0), file_counts("src/a.rs", 1, 0, 0), file_counts("src/c.rs", 4, 0, 0)],
    )];
    let report = scan_report_from_counts("src".to_owned(), languages, &ScanOptions::default());
    let paths: Vec<&str> = report.languages[0].file_stats.iter().map(|f| f.path.as_str()).collect();

    assert_eq!(paths, vec!["src/c.rs", "src/a.rs", "src/b.rs"]);
}

#[test]
fn ignoring_blank_lines_and_comments_keeps_the_total() {
    let languages = vec![counts("Rust", LanguageKind::Other, vec![rust_main()])];
    let options = ScanOptions { include_blank_lines: false, include_comments: false, ignored_paths: Vec::new() };
    let report = scan_report_from_counts("sample".to_owned(), languages, &options);

    assert_eq!(report.summary.total_lines, 5);
    assert_eq!(report.summary.blank_lines, 0);
    assert_eq!(report.summary.comment_lines, 0);
    assert_eq!(report.categories.blanks, 0);
    assert_eq!(report.categories.comments, 0);
    assert_eq!(report.languages[0].blank_lines, 0);
    assert_eq!(report.languages[0].comment_lines, 0);
    assert_eq!(report.languages[0].total_lines, 5);
    assert_eq!(report.languages[0].file_stats[0].blank_lines, 0);
    assert_eq!(report.languages[0].file_stats[0].total_lines, 5);
}

#[test]
fn total_is_the_sum_of_the_four_categories() {
    let languages = vec![
        counts("Rust", LanguageKind::Other, vec![rust_main()]),
        counts("Markdown", LanguageKind::Markdown, vec![markdown_readme()]),
    ];
    let report = scan_report_from_counts("sample".to_owned(), languages, &ScanOptions::default());
    let s = &report.summary;
    let c = &report.categories;

    assert_eq!(s.total_lines, s.blank_lines + s.comment_lines + s.document_lines + s.code_lines);
    assert_eq!(s.total_lines, c.code + c.comments + c.documents + c.blanks);
}

#[test]
fn languages_add_up_to_the_summary() {
    let languages = vec![
        counts("Rust", LanguageKind::Other, vec![rust_main(), file_counts("lib.rs", 3, 0, 0)]),
        counts("Markdown", LanguageKind::Markdown, vec![markdown_readme()]),
        counts("Text", LanguageKind::Text, vec![file_counts("notes.txt", 4, 0, 2)]),
    ];
    let report = scan_report_from_counts("sample".to_owned(), languages, &ScanOptions::default());
    let sum = |f: fn(&LanguageStat) -> usize| report.languages.iter().map(f).sum::<usize>();

    assert_eq!(report.summary.files, sum(|l| l.files));
    assert_eq!(report.summary.total_lines, sum(|l| l.total_lines));
    assert_eq!(report.summary.code_lines, sum(|l| l.code_lines));
    assert_eq!(report.summary.document_lines, sum(|l| l.document_lines));
    assert_eq!(report.summary.blank_lines, sum(|l| l.blank_lines));
    assert_eq!(report.summary.comment_lines, sum(|l| l.comment_lines));
    assert_eq!(report.summary.total_lines, 17);
}

#[test]
fn literate_markdown_and_text_languages_are_documents() {
    assert!(is_document_language(LanguageKind::Markdown, false));
    assert!(is_document_language(LanguageKind::Text, false));
    assert!(is_document_language(LanguageKind::Other, true));
    assert!(!is_document_language(LanguageKind::Other, false));
}

#[test]
fn file_stat_of_a_document_counts_code_and_comments_as_documents() {
    let options = ScanOptions::default();
    let stat = file_stat_from_report(&file_counts("notes.md", 4, 2, 3), true, &options);

    assert_eq!(stat.path, "notes.md");
    assert_eq!(stat.total_lines, 9);
    assert_eq!(stat.document_lines, 6);
    assert_eq!(stat.code_lines, 0);
    assert_eq!(stat.comment_lines, 0);
    assert_eq!(stat.blank_lines, 3);
}

#[test]
fn language_stat_sums_categories_of_a_language() {
    let options = ScanOptions::default();
    let stat = language_stat_from_counts(&counts("Rust", LanguageKind::Other, vec![rust_main()]), &options);

    assert_eq!(stat.name, "Rust");
    assert_eq!(stat.files, 1);
    assert_eq!(stat.total_lines, 5);
    assert_eq!(stat.code_lines, 3);
    assert_eq!(stat.comment_lines, 1);
    assert_eq!(stat.blank_lines, 1);
    assert!(!stat.is_document);
}

#[test]
fn scan_report_diff_tracks_summary_and_language_deltas() {
    let before = report_with_languages(&[
        language_stat("Rust", 1, 10, 8, 1, 0, 1),
        language_stat("Markdown", 1, 4, 0, 0, 3, 1),
    ]);
    let after = report_with_languages(&[
        language_stat("Rust", 2, 16, 13, 1, 0, 2),
        language_stat("Python", 1, 5, 4, 0, 0, 1),
    ]);

    let diff = diff_reports(&before, &after);

    assert_eq!(diff.summary.files, 1);
    assert_eq!(diff.summary.total_lines, 7);
    assert_eq!(diff.summary.code_lines, 9);
    assert_eq!(diff.summary.document_lines, -3);
    assert_eq!(diff.summary.blank_lines, 1);

    assert_eq!(diff.languages.len(), 3);
    let rust = diff.languages.iter().find(|language| language.name == "Rust").expect("Rust diff");
    assert_eq!(rust.files, 1);
    assert_eq!(rust.code_lines, 5);

    let markdown = diff.languages.iter().find(|language| language.name == "Markdown").expect("Markdown diff");
    assert_eq!(markdown.files, -1);
    assert_eq!(markdown.document_lines, -3);

    let python = diff.languages.iter().find(|language| language.name == "Python").expect("Python diff");
    assert_eq!(python.files, 1);
    assert_eq!(python.code_lines, 4);
}

#[test]
fn diff_orders_languages_by_size_of_change_then_name() {
    let before = report_with_languages(&[
        language_stat("Rust", 1, 10, 8, 1, 0, 1),
        language_stat("Markdown", 1, 4, 0, 0, 3, 1),
    ]);
    let after = report_with_languages(&[
        language_stat("Rust", 2, 16, 13, 1, 0, 2),
        language_stat("Python", 1, 5, 4, 0, 0, 1),
    ]);
    let diff = diff_reports(&before, &after);
    let names: Vec<&str> = diff.languages.iter().map(|l| l.name.as_str()).collect();

    assert_eq!(names, vec!["Rust", "Python", "Markdown"]);
    assert_eq!(diff.before_root, "sample");
    assert_eq!(diff.after_root, "sample");
}

#[test]
fn diff_leaves_out_unchanged_languages() {
    let before = report_with_languages(&[
        language_stat("Rust", 1, 10, 8, 1, 0, 1),
        language_stat("Go", 1, 3, 3, 0, 0, 0),
    ]);
    let after = report_with_languages(&[
        language_stat("Rust", 1, 12, 10, 1, 0, 1),
        language_stat("Go", 1, 3, 3, 0, 0, 0),
    ]);
    let diff = diff_reports(&before, &after);

    assert_eq!(diff.languages.len(), 1);
    assert_eq!(diff.languages[0].name, "Rust");
    assert_eq!(diff.languages[0].total_lines, 2);
}

#[test]
fn diff_of_a_report_with_itself_is_empty() {
    let report = report_with_languages(&[
        language_stat("Rust", 1, 10, 8, 1, 0, 1),
        language_stat("Markdown", 1, 4, 0, 0, 3, 1),
    ]);
    let diff = diff_reports(&report, &report);

    assert_eq!(diff.summary.files, 0);
    assert_eq!(diff.summary.total_lines, 0);
    assert_eq!(diff.summary.code_lines, 0);
    assert_eq!(diff.summary.document_lines, 0);
    assert!(diff.languages.is_empty());
}

#[test]
fn diff_in_the_other_direction_negates_every_change() {
    let a = report_with_languages(&[
        language_stat("Rust", 1, 10, 8, 1, 0, 1),
        language_stat("Markdown", 1, 4, 0, 0, 3, 1),
    ]);
    let b = report_with_languages(&[
        language_stat("Rust", 2, 16, 13, 1, 0, 2),
        language_stat("Python", 1, 5, 4, 0, 0, 1),
    ]);
    let forward = diff_reports(&a, &b);
    let backward = diff_reports(&b, &a);

    assert_eq!(forward.summary.total_lines, -backward.summary.total_lines);
    assert_eq!(forward.summary.files, -backward.summary.files);
    assert_eq!(forward.languages.len(), backward.languages.len());
    for d in &forward.languages {
        let e = backward.languages.iter().find(|e| e.name == d.name).expect("negated language");
        assert_eq!(e.total_lines, -d.total_lines);
        assert_eq!(e.code_lines, -d.code_lines);
        assert_eq!(e.files, -d.files);
    }
}

#[test]
fn delta_is_after_minus_before() {
    assert_eq!(delta(3, 10), 7);
    assert_eq!(delta(10, 3), -7);
    assert_eq!(delta(5, 5), 0);
}

#[test]
fn counts_that_overflow_do_not_fit() {

    let small = vec![counts("Rust", LanguageKind::Other, vec![rust_main()])];
    assert!(counts_fit_check(&small));

    let huge_file = vec![counts("Rust", LanguageKind::Other, vec![file_counts("big.rs", usize::MAX, 1, 0)])];
    assert!(!counts_fit_check(&huge_file));

    let mut a = counts("Rust", LanguageKind::Other, vec![file_counts("a.rs", usize::MAX / 2 + 1, 0, 0)]);
    a.code = usize::MAX / 2 + 1;
    let mut b = counts("Go", LanguageKind::Other, vec![file_counts("b.go", usize::MAX / 2 + 1, 0, 0)]);
    b.code = usize::MAX / 2 + 1;
    assert!(!counts_fit_check(&vec![a, b]));
}

#[test]
fn reports_with_huge_counts_cannot_be_compared() {

    let small = report_with_languages(&[language_stat("Rust", 1, 10, 8, 1, 0, 1)]);
    assert!(reports_fit_for_diff(&small, &small));

    let mut huge = small.clone();
    huge.summary.total_lines = usize::MAX;
    assert!(!reports_fit_for_diff(&small, &huge));

    let big = (isize::MAX as usize) / 2 + 1;
    let wide = report_with_languages(&[language_stat("Rust", 1, big, big, 0, 0, 0)]);
    let mut two_names = wide.clone();
    two_names.languages.push(language_stat("Go", 1, big, big, 0, 0, 0));
    two_names.summary.total_lines = 0;
    two_names.summary.code_lines = 0;
    assert!(reports_fit_for_diff(&wide, &two_names));

    let mut same_name = wide.clone();
    same_name.languages.push(language_stat("Rust", 1, big, big, 0, 0, 0));
    same_name.summary.total_lines = 0;
    same_name.summary.code_lines = 0;
    assert!(!reports_fit_for_diff(&wide, &same_name));
}

#[test]
fn diff_lists_languages_in_the_same_order_both_ways() {
    let a = report_with_languages(&[
        language_stat("Rust", 1, 10, 8, 1, 0, 1),
        language_stat("Markdown", 1, 4, 0, 0, 3, 1),
        language_stat("Go", 1, 6, 6, 0, 0, 0),
    ]);
    let b = report_with_languages(&[
        language_stat("Rust", 2, 16, 13, 1, 0, 2),
        language_stat("Python", 1, 4, 4, 0, 0, 0),
    ]);
    let forward = diff_reports(&a, &b);
    let backward = diff_reports(&b, &a);
    let names = |d: &code_count::ScanReportDiff| d.languages.iter().map(|l| l.name.clone()).collect::<Vec<_>>();

    assert_eq!(names(&forward), names(&backward));
    assert_eq!(names(&forward), vec!["Go", "Rust", "Markdown", "Python"]);
    for (d, e) in forward.languages.iter().zip(backward.languages.iter()) {
        assert_eq!(d.total_lines, -e.total_lines);
    }
    assert_eq!(forward.before_root, backward.after_root);
}

#[test]
fn files_of_equal_size_in_a_scan_of_the_current_directory_are_in_path_order() {
    let languages = vec![counts(
        "Rust",
        LanguageKind::Other,
        vec![file_counts("./src/z.rs", 2, 0, 0), file_counts("./src/a/b.rs", 2, 0, 0), file_counts("./src/a.rs", 2, 0, 0)],
    )];
    let report = scan_report_from_counts(".".to_owned(), languages, &ScanOptions::default());
    let paths: Vec<&str> = report.languages[0].file_stats.iter().map(|f| f.path.as_str()).collect();

    assert_eq!(paths, vec!["./src/a/b.rs", "./src/a.rs", "./src/z.rs"]);
}

#[test]
fn switches_change_only_blank_and_comment_counts() {
    let languages = || {
        vec![
            counts("Rust", LanguageKind::Other, vec![rust_main(), file_counts("sample/lib.rs", 3, 2, 2)]),
            counts("Markdown", LanguageKind::Markdown, vec![markdown_readme()]),
        ]
    };
    let all = scan_report_from_counts("sample".to_owned(), languages(), &ScanOptions::default());
    let options = ScanOptions { include_blank_lines: false, include_comments: false, ignored_paths: Vec::new() };
    let some = scan_report_from_counts("sample".to_owned(), languages(), &options);

    assert_eq!(all.languages.len(), some.languages.len());
    for (x, y) in all.languages.iter().zip(some.languages.iter()) {
        assert_eq!(x.name, y.name);
        assert_eq!(x.total_lines, y.total_lines);
        assert_eq!(x.code_lines, y.code_lines);
        assert_eq!(x.document_lines, y.document_lines);
        assert_eq!(y.blank_lines, 0);
        assert_eq!(y.comment_lines, 0);
        for f in &y.file_stats {
            let g = x.file_stats.iter().find(|g| g.path == f.path).expect("same file");
            assert_eq!(f.total_lines, g.total_lines);
            assert_eq!(f.code_lines, g.code_lines);
            assert_eq!(f.blank_lines, 0);
            assert_eq!(f.comment_lines, 0);
        }
    }
    assert_eq!(all.languages[0].blank_lines, 3);
}

#[test]
fn diff_adds_up_only_entries_of_one_name() {
    let big = (isize::MAX as usize) / 2 + 1;
    let wide = report_with_languages(&[language_stat("Rust", 1, big, big, 0, 0, 0)]);
    let mut two_names = wide.clone();
    two_names.languages.push(language_stat("Go", 1, big, big, 0, 0, 0));
    two_names.summary.total_lines = 0;
    two_names.summary.code_lines = 0;

    let diff = diff_reports(&wide, &two_names);

    assert_eq!(diff.languages.len(), 1);
    assert_eq!(diff.languages[0].name, "Go");
    assert_eq!(diff.languages[0].total_lines, big as isize);
}
