//! Project configuration (`code-count.toml`) and how it combines with command-line flags.
use vstd::prelude::*;
use crate::model::ScanOptions;
use crate::report::ReportFormat;
use crate::state::{AppView, TuiOptions};
use crate::text::{ascii_lowercase, to_ascii_lowercase, str_eq, push_all};
use crate::view::{join_path, joined, plain_component};
use crate::report::{dotted_path, slash_separated};

verus! {

/// The `[scan]` table of a project configuration.
#[derive(Debug, Clone, Default, PartialEq, Eq)]
pub struct ScanConfig {
    pub include_blank_lines: Option<bool>,
    pub include_comments: Option<bool>,
    pub ignored_paths: Option<Vec<String>>,
}

/// The `[tui]` table of a project configuration.
#[derive(Debug, Clone, Default, PartialEq, Eq)]
pub struct TuiConfig {
    pub default_view: Option<String>,
    pub report_format: Option<String>,
}

/// A project configuration, and the file it was read from.
#[derive(Debug, Clone, Default, PartialEq, Eq)]
pub struct ProjectConfig {
    pub scan: Option<ScanConfig>,
    pub tui: Option<TuiConfig>,
    pub config_path: Option<String>,
}

/// Scan settings given on the command line for one run.
#[derive(Debug, Clone, Default, PartialEq, Eq)]
pub struct ScanFlags {
    pub ignore_blank: bool,
    pub ignore_comments: bool,
    pub ignored_paths: Vec<String>,
}

/// A setting of the configuration that is not one of the accepted values.
#[derive(Debug, Clone, PartialEq, Eq)]
pub enum ConfigError {
    InvalidView(String),
    InvalidReportFormat(String),
}

impl ConfigError {
    /// The message of the error.
    pub open spec fn message_text(&self) -> Seq<char> {
        match self {
            ConfigError::InvalidView(v) => "invalid tui.default_view: "@ + v@
                + "; expected dashboard, explorer, or report"@,
            ConfigError::InvalidReportFormat(v) => "invalid tui.report_format: "@ + v@
                + "; expected json, markdown, html, or csv"@,
        }
    }

    /// The message of the error.
    pub fn message(&self) -> (text: String)
        ensures
            text@ == self.message_text(),
    {
        let mut text = String::new();
        match self {
            ConfigError::InvalidView(v) => {
                push_all(&mut text, "invalid tui.default_view: ");
                push_all(&mut text, v.as_str());
                push_all(&mut text, "; expected dashboard, explorer, or report");
            },
            ConfigError::InvalidReportFormat(v) => {
                push_all(&mut text, "invalid tui.report_format: ");
                push_all(&mut text, v.as_str());
                push_all(&mut text, "; expected json, markdown, html, or csv");
            },
        }
        assert(text@ =~= self.message_text());
        text
    }
}

/// The view a configured name stands for, ignoring ASCII case.
pub open spec fn view_named(value: Seq<char>) -> Option<AppView> {
    let v = ascii_lowercase(value);
    if v == "dashboard"@ {
        Some(AppView::Dashboard)
    } else if v == "explorer"@ {
        Some(AppView::Explorer)
    } else if v == "report"@ {
        Some(AppView::Report)
    } else {
        None
    }
}

/// The export format a configured name stands for, ignoring ASCII case.
pub open spec fn format_named(value: Seq<char>) -> Option<ReportFormat> {
    let v = ascii_lowercase(value);
    if v == "json"@ {
        Some(ReportFormat::Json)
    } else if v == "markdown"@ || v == "md"@ {
        Some(ReportFormat::Markdown)
    } else if v == "html"@ {
        Some(ReportFormat::Html)
    } else if v == "csv"@ {
        Some(ReportFormat::Csv)
    } else {
        None
    }
}

/// The view named `value`: `dashboard`, `explorer` or `report`, in any ASCII case.
pub fn parse_app_view(value: &str) -> (r: Result<AppView, ConfigError>)
    ensures
        match view_named(value@) {
            Some(v) => r == Ok::<AppView, ConfigError>(v),
            None => r matches Err(ConfigError::InvalidView(s)) && s@ == value@,
        },
{
    let lower = to_ascii_lowercase(value);
    if str_eq(lower.as_str(), "dashboard") {
        Ok(AppView::Dashboard)
    } else if str_eq(lower.as_str(), "explorer") {
        Ok(AppView::Explorer)
    } else if str_eq(lower.as_str(), "report") {
        Ok(AppView::Report)
    } else {
        Err(ConfigError::InvalidView(String::from_str(value)))
    }
}

/// The export format named `value`: `json`, `markdown` or `md`, `html`, or `csv`, in
/// any ASCII case.
pub fn parse_report_format(value: &str) -> (r: Result<ReportFormat, ConfigError>)
    ensures
        match format_named(value@) {
            Some(f) => r == Ok::<ReportFormat, ConfigError>(f),
            None => r matches Err(ConfigError::InvalidReportFormat(s)) && s@ == value@,
        },
{
    let lower = to_ascii_lowercase(value);
    if str_eq(lower.as_str(), "json") {
        Ok(ReportFormat::Json)
    } else if str_eq(lower.as_str(), "markdown") || str_eq(lower.as_str(), "md") {
        Ok(ReportFormat::Markdown)
    } else if str_eq(lower.as_str(), "html") {
        Ok(ReportFormat::Html)
    } else if str_eq(lower.as_str(), "csv") {
        Ok(ReportFormat::Csv)
    } else {
        Err(ConfigError::InvalidReportFormat(String::from_str(value)))
    }
}

/// The options of the terminal UI: the defaults, changed by the `[tui]` table where it
/// names a view or a format. A name that is not accepted is an error; the view is
/// checked first.
pub fn tui_options(config: &ProjectConfig) -> (r: Result<TuiOptions, ConfigError>)
    ensures
        match config.tui {
            None => r == Ok::<TuiOptions, ConfigError>(
                TuiOptions { initial_view: AppView::Dashboard, report_format: ReportFormat::Json },
            ),
            Some(t) => {
                let view_ok = match t.default_view {
                    Some(v) => view_named(v@) is Some,
                    None => true,
                };
                let format_ok = match t.report_format {
                    Some(f) => format_named(f@) is Some,
                    None => true,
                };
                &&& !view_ok ==> (r matches Err(ConfigError::InvalidView(s)) && s@ == t.default_view->0@)
                &&& view_ok && !format_ok ==> (r matches Err(ConfigError::InvalidReportFormat(s)) && s@
                    == t.report_format->0@)
                &&& view_ok && format_ok ==> r == Ok::<TuiOptions, ConfigError>(
                    TuiOptions {
                        initial_view: match t.default_view {
                            Some(v) => view_named(v@)->0,
                            None => AppView::Dashboard,
                        },
                        report_format: match t.report_format {
                            Some(f) => format_named(f@)->0,
                            None => ReportFormat::Json,
                        },
                    },
                )
            },
        },
{
    let tui_config = match &config.tui {
        Some(t) => t,
        None => {
            return Ok(TuiOptions::default());
        },
    };
    let initial_view = match &tui_config.default_view {
        Some(value) => match parse_app_view(value.as_str()) {
            Ok(v) => v,
            Err(e) => {
                return Err(e);
            },
        },
        None => TuiOptions::default().initial_view,
    };
    let report_format = match &tui_config.report_format {
        Some(value) => match parse_report_format(value.as_str()) {
            Ok(f) => f,
            Err(e) => {
                return Err(e);
            },
        },
        None => TuiOptions::default().report_format,
    };
    Ok(TuiOptions { initial_view, report_format })
}

/// The text after the last `/` of `p` (all of `p` when it has none).
pub open spec fn last_component(p: Seq<char>) -> Seq<char>
    decreases p.len(),
{
    if p.len() == 0 || p.last() == '/' {
        Seq::empty()
    } else {
        last_component(p.drop_last()).push(p.last())
    }
}

/// The file name at the end of `path`, as `Path::file_name` gives it, when it is valid
/// UTF-8. Its documentation says that it is the final component of the path when that
/// is a name; for a path of the kind `dotted_path` describes other than `.`, which
/// every platform splits into the same components at each `/` and whose final
/// component is a name, that is the text after the last `/`. For other paths nothing is
/// stated: how they split depends on the platform.
#[verifier::external_body]
fn path_file_name(path: &str) -> (name: Option<String>)
    ensures
        dotted_path(path@) && path@ != seq!['.'] ==> match name {
            Some(n) => n@ == last_component(path@),
            None => false,
        },
{
    match std::path::Path::new(path).file_name() {
        Some(name) => match name.to_str() {
            Some(text) => Some(text.to_string()),
            None => None,
        },
        None => None,
    }
}

/// The parent of `path`, as `Path::parent` gives it. Its documentation says that it is
/// the path without its final component, and that there is none for the empty path;
/// so a parent is a strictly shorter beginning of `path`. Where the final component
/// begins depends on the platform's separators and is not stated.
#[verifier::external_body]
fn path_parent(path: &str) -> (parent: Option<String>)
    ensures
        match parent {
            Some(p) => p@.len() < path@.len() && p@ == path@.take(p@.len() as int),
            None => true,
        },
        path@.len() == 0 ==> parent is None,
{
    match std::path::Path::new(path).parent() {
        Some(parent) => Some(parent.to_string_lossy().into_owned()),
        None => None,
    }
}

/// The directory the config file of a non-directory `path` sits in: a strictly shorter
/// beginning of `path` (its parent), or `.`, which is what an empty path gets.
pub open spec fn config_base(path: Seq<char>, base: Seq<char>) -> bool {
    ||| base == "."@
    ||| (base.len() < path.len() && base == path.take(base.len() as int))
}

/// The config file of the project at `path`: `code-count.toml` in `path` when it is a
/// directory (`is_dir`), else beside the file, in its parent (`.` when it has none).
/// For a path without `\` the result is that directory, perhaps a separator, and
/// `code-count.toml`; which separator, and where the parent ends, `Path::join` and
/// `Path::parent` decide.
pub fn project_config_path(path: &str, is_dir: bool) -> (config: String)
    ensures
        slash_separated(path@) && is_dir ==> joined(path@, "code-count.toml"@, config@),
        slash_separated(path@) && !is_dir ==> exists|base: Seq<char>|
            config_base(path@, base) && joined(base, "code-count.toml"@, config@),
        !is_dir && path@.len() == 0 ==> joined("."@, "code-count.toml"@, config@),
{
    proof {
        reveal_strlit("code-count.toml");
        assert(plain_component("code-count.toml"@)) by {
            let n = "code-count.toml"@;
            assert forall|i: int| 0 <= i < n.len() implies n[i] != '/' && n[i] != '\\' && n[i] != ':' by {}
        }
    }
    if is_dir {
        join_path(path, "code-count.toml")
    } else {
        let base = match path_parent(path) {
            Some(parent) => parent,
            None => ".".to_string(),
        };
        proof {
            reveal_strlit(".");
            if slash_separated(path@) && base@ != "."@ {
                assert forall|k: int| 0 <= k < base@.len() implies base@[k] != '\\' by {
                    assert(base@[k] == path@[k]);
                }
            }
        }
        let config = join_path(base.as_str(), "code-count.toml");
        assert(config_base(path@, base@));
        config
    }
}

/// Whether `list` holds `s`.
pub open spec fn lists(list: Seq<String>, s: Seq<char>) -> bool {
    exists|i: int| 0 <= i < list.len() && #[trigger] list[i]@ == s
}

fn list_holds(list: &Vec<String>, s: &str) -> (r: bool)
    ensures
        r == lists(list@, s@),
{
    let mut i: usize = 0;
    while i < list.len()
        invariant
            i <= list@.len(),
            forall|k: int| 0 <= k < i ==> #[trigger] list@[k]@ != s@,
        decreases list@.len() - i,
    {
        if str_eq(list[i].as_str(), s) {
            return true;
        }
        i = i + 1;
    }
    false
}

/// The configured value of a `[scan]` switch; `true` where it is not set.
pub open spec fn switch_value(scan: Option<ScanConfig>, blank: bool) -> bool {
    match scan {
        Some(s) => {
            let v = if blank { s.include_blank_lines } else { s.include_comments };
            match v {
                Some(b) => b,
                None => true,
            }
        },
        None => true,
    }
}

/// The ignored paths that a configuration lists, before the config file itself.
pub open spec fn configured_ignores(scan: Option<ScanConfig>) -> Seq<String> {
    match scan {
        Some(s) => match s.ignored_paths {
            Some(p) => p@,
            None => Seq::empty(),
        },
        None => Seq::empty(),
    }
}

/// The scan options of one run, when `config_file_name` is the name of the config file:
/// the flags turn blank lines and comments off, else the configuration decides (they
/// are on where it says nothing); the ignored paths are those configured, then those of
/// the flags, then the config file's own name when it is not listed yet.
pub open spec fn is_scan_options(
    options: ScanOptions,
    flags: ScanFlags,
    config: ProjectConfig,
    config_file_name: Option<Seq<char>>,
) -> bool {
    let listed = configured_ignores(config.scan) + flags.ignored_paths@;
    &&& options.include_blank_lines == (!flags.ignore_blank && switch_value(config.scan, true))
    &&& options.include_comments == (!flags.ignore_comments && switch_value(config.scan, false))
    &&& match config_file_name {
        Some(n) => if lists(listed, n) {
            options.ignored_paths@ == listed
        } else {
            options.ignored_paths@.len() == listed.len() + 1 && options.ignored_paths@.take(listed.len() as int)
                == listed && options.ignored_paths@.last()@ == n
        },
        None => options.ignored_paths@ == listed,
    }
}

/// The scan options of one run, with `config_file_name` as the config file's name.
pub fn scan_options_with_name(flags: &ScanFlags, config: &ProjectConfig, config_file_name: Option<String>) -> (options: ScanOptions)
    ensures
        is_scan_options(options, *flags, *config, match config_file_name {
            Some(n) => Some(n@),
            None => None,
        }),
{
    let include_blank_lines = if flags.ignore_blank {
        false
    } else {
        match &config.scan {
            Some(scan) => match scan.include_blank_lines {
                Some(b) => b,
                None => true,
            },
            None => true,
        }
    };
    let include_comments = if flags.ignore_comments {
        false
    } else {
        match &config.scan {
            Some(scan) => match scan.include_comments {
                Some(b) => b,
                None => true,
            },
            None => true,
        }
    };
    let mut ignored_paths: Vec<String> = match &config.scan {
        Some(scan) => match &scan.ignored_paths {
            Some(paths) => paths.clone(),
            None => Vec::new(),
        },
        None => Vec::new(),
    };
    let ghost configured = ignored_paths@;
    assert(configured == configured_ignores(config.scan));
    let mut i: usize = 0;
    while i < flags.ignored_paths.len()
        invariant
            i <= flags.ignored_paths@.len(),
            ignored_paths@ == configured + flags.ignored_paths@.take(i as int),
        decreases flags.ignored_paths@.len() - i,
    {
        ignored_paths.push(flags.ignored_paths[i].clone());
        i = i + 1;
        assert(ignored_paths@ =~= configured + flags.ignored_paths@.take(i as int));
    }
    assert(flags.ignored_paths@.take(i as int) =~= flags.ignored_paths@);
    if let Some(name) = config_file_name {
        if !list_holds(&ignored_paths, name.as_str()) {
            let ghost before = ignored_paths@;
            ignored_paths.push(name);
            assert(ignored_paths@.take(before.len() as int) =~= before);
        }
    }
    ScanOptions { include_blank_lines, include_comments, ignored_paths }
}

/// The scan options of one run: `scan_options_with_name` with the file name of the
/// configured `config_path`, as `Path::file_name` finds it; for a path such as
/// `./code-count.toml` or `project/code-count.toml` that is the text after its last
/// `/`, so `code-count.toml`.
pub fn scan_options(flags: &ScanFlags, config: &ProjectConfig) -> (options: ScanOptions)
    ensures
        config.config_path is None ==> is_scan_options(options, *flags, *config, None),
        match config.config_path {
            Some(p) => dotted_path(p@) && p@ != seq!['.'] ==> is_scan_options(
                options,
                *flags,
                *config,
                Some(last_component(p@)),
            ),
            None => true,
        },
        exists|name: Option<Seq<char>>| is_scan_options(options, *flags, *config, name),
{
    let name = match &config.config_path {
        Some(path) => path_file_name(path.as_str()),
        None => None,
    };
    scan_options_with_name(flags, config, name)
}

} // verus!
