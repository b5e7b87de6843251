use code_count::report::{
    bar_segment, csv_escape, display_path, display_paths, html_escape, markdown_escape, metric, render_csv_report,
    render_html_report, render_markdown_report, BarWidths,
};
use code_count::{
    report_extension, scan_report_from_counts, FileCounts, LanguageCounts, LanguageKind, ReportFormat,
    ReportRenderOptions, ScanOptions, ScanReport,
};

fn single_file(name: &str, kind: LanguageKind, path: &str, code: usize) -> LanguageCounts {
    LanguageCounts {
        name: name.to_owned(),
        kind,
        literate: false,
        blanks: 0,
        code,
        comments: 0,
        files: vec![FileCounts { path: path.to_owned(), blanks: 0, code, comments: 0 }],
    }
}

fn sample_report() -> ScanReport {
    scan_report_from_counts(
        "project".to_owned(),
        vec![
            single_file("Rust", LanguageKind::Other, "project/main.rs", 1),
            single_file("Markdown", LanguageKind::Markdown, "project/README.md", 1),
        ],
        &ScanOptions::default(),
    )
}

fn half_widths() -> BarWidths {
    BarWidths {
        code: "50.00".to_owned(),
        comments: "0.00".to_owned(),
        documents: "50.00".to_owned(),
        blanks: "0.00".to_owned(),
    }
}

#[test]
fn report_export_renders_markdown_and_csv() {
    let report = sample_report();
    let options = ReportRenderOptions { include_language_details: true, include_file_details: true };

    let markdown = render_markdown_report(&report, &options);
    assert!(markdown.contains("# code-count report"));
    assert!(markdown.contains("## Languages"));
    assert!(markdown.contains("### Rust"));

    let html = render_html_report(&report, &options, &half_widths());
    assert!(html.contains("<!doctype html>"));
    assert!(html.contains("<td>Rust</td>"));

    let csv = render_csv_report(&report, &options);
    assert!(csv.contains("kind,name,files,total,code,comments,documents,blank"));
    assert!(csv.contains("language,Rust"));
    assert!(csv.contains("file,"));
}

#[test]
fn markdown_report_lists_summary_and_languages() {
    let markdown = render_markdown_report(&sample_report(), &ReportRenderOptions::default());

    assert_eq!(
        markdown,
        "# code-count report\n\n- Root: project\n- Files: 2\n- Total lines: 2\n- Code lines: 1\n\
         - Comment lines: 0\n- Document lines: 1\n- Blank lines: 0\n\n## Languages\n\n\
         | Language | Files | Total | Code | Comments | Documents | Blank |\n\
         | --- | ---: | ---: | ---: | ---: | ---: | ---: |\n\
         | Markdown | 1 | 1 | 0 | 0 | 1 | 0 |\n\
         | Rust | 1 | 1 | 1 | 0 | 0 | 0 |\n"
    );
}

#[test]
fn markdown_report_without_language_details_is_only_the_summary() {
    let options = ReportRenderOptions { include_language_details: false, include_file_details: true };
    let markdown = render_markdown_report(&sample_report(), &options);

    assert!(markdown.ends_with("- Blank lines: 0\n"));
    assert!(!markdown.contains("Languages"));
}

#[test]
fn markdown_report_file_tables_use_paths_below_the_root() {
    let options = ReportRenderOptions { include_language_details: true, include_file_details: true };
    let markdown = render_markdown_report(&sample_report(), &options);

    assert!(markdown.contains(
        "\n### Rust\n\n| File | Total | Code | Comments | Documents | Blank |\n\
         | --- | ---: | ---: | ---: | ---: | ---: |\n| main.rs | 1 | 1 | 0 | 0 | 0 |\n\n"
    ));
    assert!(markdown.contains("| README.md | 1 | 0 | 0 | 1 | 0 |\n"));
}

#[test]
fn csv_report_has_summary_language_and_file_records() {
    let options = ReportRenderOptions { include_language_details: true, include_file_details: true };
    let csv = render_csv_report(&sample_report(), &options);

    assert_eq!(
        csv,
        "kind,name,files,total,code,comments,documents,blank\n\
         summary,project,2,2,1,0,1,0\n\
         language,Markdown,1,1,0,0,1,0\n\
         file,README.md,1,1,0,0,1,0\n\
         language,Rust,1,1,1,0,0,0\n\
         file,main.rs,1,1,1,0,0,0\n"
    );
}

#[test]
fn csv_report_without_details_is_header_and_summary() {
    let options = ReportRenderOptions { include_language_details: false, include_file_details: false };
    let csv = render_csv_report(&sample_report(), &options);

    assert_eq!(csv, "kind,name,files,total,code,comments,documents,blank\nsummary,project,2,2,1,0,1,0\n");
}

#[test]
fn html_report_has_metrics_bar_and_tables() {
    let options = ReportRenderOptions { include_language_details: true, include_file_details: true };
    let html = render_html_report(&sample_report(), &options, &half_widths());

    assert!(html.starts_with("<!doctype html>\n<html lang=\"en\">\n"));
    assert!(html.contains("<p class=\"root\">Root: project</p>\n"));
    assert!(html.contains("<div class=\"metric\"><span>Files</span><strong>2</strong></div>\n"));
    assert!(html.contains("<div class=\"code\" style=\"width:50.00%\"></div>\n"));
    assert!(html.contains("<div class=\"docs\" style=\"width:50.00%\"></div>\n"));
    assert!(!html.contains("class=\"comments\" style"));
    assert!(html.contains("<span><b>Code</b> 1</span>"));
    assert!(html.contains("<tr><td>Rust</td><td>1</td><td>1</td><td>1</td><td>0</td><td>0</td><td>0</td></tr>\n"));
    assert!(html.contains("<h3>Markdown</h3>\n"));
    assert!(html.contains("<tr><td>README.md</td><td>1</td><td>0</td><td>0</td><td>1</td><td>0</td></tr>\n"));
    assert!(html.ends_with("</main>\n</body>\n</html>\n"));
}

#[test]
fn html_report_without_language_details_has_no_table() {
    let options = ReportRenderOptions { include_language_details: false, include_file_details: true };
    let html = render_html_report(&sample_report(), &options, &half_widths());

    assert!(!html.contains("<table>"));
    assert!(html.contains("<h2>Composition</h2>"));
}

#[test]
fn metric_and_bar_segment_write_one_element() {
    let mut out = String::new();
    metric(&mut out, "A<B", 7);
    assert_eq!(out, "<div class=\"metric\"><span>A&lt;B</span><strong>7</strong></div>\n");

    let mut bar = String::new();
    bar_segment(&mut bar, "code", 0, "0.00");
    assert_eq!(bar, "");
    bar_segment(&mut bar, "code", 3, "75.00");
    assert_eq!(bar, "<div class=\"code\" style=\"width:75.00%\"></div>\n");
}

#[test]
fn escapes_follow_each_format() {
    assert_eq!(html_escape("<a href='x'>&\""), "&lt;a href=&#39;x&#39;&gt;&amp;&quot;");
    assert_eq!(markdown_escape("a|b|c"), "a\\|b\\|c");
    assert_eq!(csv_escape("plain"), "plain");
    assert_eq!(csv_escape("a,b"), "\"a,b\"");
    assert_eq!(csv_escape("say \"hi\""), "\"say \"\"hi\"\"\"");
    assert_eq!(csv_escape("two\nlines"), "\"two\nlines\"");
}

#[test]
fn report_extension_names_each_format() {
    assert_eq!(report_extension(ReportFormat::Json), "json");
    assert_eq!(report_extension(ReportFormat::Markdown), "md");
    assert_eq!(report_extension(ReportFormat::Html), "html");
    assert_eq!(report_extension(ReportFormat::Csv), "csv");
}

#[test]
fn display_path_is_relative_to_the_root_with_forward_slashes() {
    assert_eq!(display_path("project/src/main.rs", "project"), "src/main.rs");
    assert_eq!(display_path("other/main.rs", "project"), "other/main.rs");
    assert_eq!(display_path("dir\\file.rs", "elsewhere"), "dir/file.rs");
}

#[test]
fn display_paths_follow_the_languages_and_files() {
    let paths = display_paths(&sample_report());

    assert_eq!(paths, vec![vec!["README.md".to_owned()], vec!["main.rs".to_owned()]]);
}

#[test]
fn render_options_default_to_language_details_only() {
    let options = ReportRenderOptions::default();

    assert!(options.include_language_details);
    assert!(!options.include_file_details);
}

#[test]
fn html_escape_keeps_plain_text_and_can_be_read_back() {
    assert_eq!(html_escape("plain text 123"), "plain text 123");
    let escaped = html_escape("a<b>&\"c'");
    let read_back = escaped
        .replace("&lt;", "<")
        .replace("&gt;", ">")
        .replace("&quot;", "\"")
        .replace("&#39;", "'")
        .replace("&amp;", "&");
    assert_eq!(read_back, "a<b>&\"c'");
}

#[test]
fn display_path_of_the_root_itself_is_empty() {
    assert_eq!(display_path("project", "project"), "");
    assert_eq!(display_path("/home/p/src/a.rs", "/home/p"), "src/a.rs");
}

#[test]
fn display_path_in_a_scan_of_the_current_directory() {
    assert_eq!(display_path("./src/main.rs", "."), "src/main.rs");
    assert_eq!(display_path("./README.md", "."), "README.md");
}
