use code_count::config::{
    parse_app_view, parse_report_format, project_config_path, scan_options, scan_options_with_name, tui_options,
    ConfigError, ProjectConfig, ScanConfig, ScanFlags, TuiConfig,
};
use code_count::{AppView, ReportFormat};

fn cli() -> ScanFlags {
    ScanFlags { ignore_blank: false, ignore_comments: false, ignored_paths: Vec::new() }
}

#[test]
fn scan_options_apply_config_defaults_and_ignore_config_file() {
    let config = ProjectConfig {
        scan: Some(ScanConfig {
            include_blank_lines: Some(false),
            include_comments: Some(false),
            ignored_paths: Some(vec!["ignored".to_owned()]),
        }),
        tui: None,
        config_path: Some("code-count.toml".to_owned()),
    };

    let options = scan_options(&cli(), &config);

    assert!(!options.include_blank_lines);
    assert!(!options.include_comments);
    assert_eq!(options.ignored_paths, vec!["ignored".to_owned(), "code-count.toml".to_owned()]);
}

#[test]
fn tui_options_apply_config_defaults() {
    let config = ProjectConfig {
        scan: None,
        tui: Some(TuiConfig { default_view: Some("report".to_owned()), report_format: Some("csv".to_owned()) }),
        config_path: Some("code-count.toml".to_owned()),
    };

    let options = tui_options(&config).expect("parse tui options");

    assert_eq!(options.initial_view, AppView::Report);
    assert_eq!(options.report_format, ReportFormat::Csv);
}

#[test]
fn tui_options_reject_invalid_default_view() {
    let config = ProjectConfig {
        scan: None,
        tui: Some(TuiConfig { default_view: Some("grid".to_owned()), report_format: None }),
        config_path: Some("code-count.toml".to_owned()),
    };

    let error = tui_options(&config).expect_err("invalid view should fail");

    assert!(error.message().contains("invalid tui.default_view"));
}

#[test]
fn tui_options_reject_invalid_report_format() {
    let config = ProjectConfig {
        scan: None,
        tui: Some(TuiConfig { default_view: None, report_format: Some("pdf".to_owned()) }),
        config_path: None,
    };

    let error = tui_options(&config).expect_err("invalid format should fail");

    assert_eq!(error, ConfigError::InvalidReportFormat("pdf".to_owned()));
    assert_eq!(error.message(), "invalid tui.report_format: pdf; expected json, markdown, html, or csv");
}

#[test]
fn tui_options_default_without_tui_table() {
    let options = tui_options(&ProjectConfig::default()).expect("defaults");

    assert_eq!(options.initial_view, AppView::Dashboard);
    assert_eq!(options.report_format, ReportFormat::Json);
}

#[test]
fn view_names_ignore_ascii_case() {
    assert_eq!(parse_app_view("Dashboard"), Ok(AppView::Dashboard));
    assert_eq!(parse_app_view("EXPLORER"), Ok(AppView::Explorer));
    assert_eq!(parse_app_view("report"), Ok(AppView::Report));
    let error = parse_app_view("grid").expect_err("unknown view");
    assert_eq!(error.message(), "invalid tui.default_view: grid; expected dashboard, explorer, or report");
}

#[test]
fn report_format_names_accept_md_and_html() {
    assert_eq!(parse_report_format("JSON"), Ok(ReportFormat::Json));
    assert_eq!(parse_report_format("md"), Ok(ReportFormat::Markdown));
    assert_eq!(parse_report_format("Markdown"), Ok(ReportFormat::Markdown));
    assert_eq!(parse_report_format("csv"), Ok(ReportFormat::Csv));
    assert_eq!(parse_report_format("html"), Ok(ReportFormat::Html));
    assert_eq!(parse_report_format("HTML"), Ok(ReportFormat::Html));
    assert_eq!(parse_report_format("pdf"), Err(ConfigError::InvalidReportFormat("pdf".to_owned())));
}

#[test]
fn flags_override_config_and_add_ignored_paths() {
    let config = ProjectConfig {
        scan: Some(ScanConfig {
            include_blank_lines: Some(true),
            include_comments: None,
            ignored_paths: Some(vec!["target".to_owned(), "code-count.toml".to_owned()]),
        }),
        tui: None,
        config_path: None,
    };
    let flags = ScanFlags { ignore_blank: true, ignore_comments: false, ignored_paths: vec!["vendor".to_owned()] };

    let options = scan_options_with_name(&flags, &config, Some("code-count.toml".to_owned()));

    assert!(!options.include_blank_lines);
    assert!(options.include_comments);
    assert_eq!(
        options.ignored_paths,
        vec!["target".to_owned(), "code-count.toml".to_owned(), "vendor".to_owned()]
    );
}

#[test]
fn scan_options_without_config_count_everything() {
    let options = scan_options(&cli(), &ProjectConfig::default());

    assert!(options.include_blank_lines);
    assert!(options.include_comments);
    assert!(options.ignored_paths.is_empty());
}

#[test]
fn config_file_sits_in_the_project_directory_or_beside_a_file() {
    let in_dir = project_config_path("project", true);
    assert!(in_dir.starts_with("project"));
    assert!(in_dir.ends_with("code-count.toml"));

    let beside = project_config_path("project/main.rs", false);
    assert!(beside.starts_with("project"));
    assert!(beside.ends_with("code-count.toml"));
    assert!(!beside.contains("main.rs"));
}

#[test]
fn config_file_in_the_current_directory_is_ignored_by_name() {
    let config = ProjectConfig { scan: None, tui: None, config_path: Some("./code-count.toml".to_owned()) };

    let options = scan_options(&cli(), &config);

    assert_eq!(options.ignored_paths, vec!["code-count.toml".to_owned()]);
}
