//! Rendering a scan report as Markdown, HTML or CSV text.
use vstd::prelude::*;
use crate::model::{ScanReport, ScanSummary, LanguageStat, FileStat};
use crate::text::{chars_of, push_char, push_all, push_decimal, decimal, replace_char, replace_char_exec};

verus! {

/// The formats a report can be written in.
#[derive(Debug, Clone, Copy, PartialEq, Eq, Structural)]
pub enum ReportFormat {
    Json,
    Markdown,
    Html,
    Csv,
}

/// Which details a rendered report holds besides the summary.
#[derive(Debug, Clone, Copy, PartialEq, Eq, Structural)]
pub struct ReportRenderOptions {
    pub include_language_details: bool,
    pub include_file_details: bool,
}

impl Default for ReportRenderOptions {
    /// Language details, no file details.
    fn default() -> (options: Self)
        ensures
            options.include_language_details,
            !options.include_file_details,
    {
        ReportRenderOptions { include_language_details: true, include_file_details: false }
    }
}

/// The file extension of a report format.
pub open spec fn extension_of(format: ReportFormat) -> Seq<char> {
    match format {
        ReportFormat::Json => "json"@,
        ReportFormat::Markdown => "md"@,
        ReportFormat::Html => "html"@,
        ReportFormat::Csv => "csv"@,
    }
}

/// The file extension of a report format.
pub fn report_extension(format: ReportFormat) -> (ext: &'static str)
    ensures
        ext@ == extension_of(format),
{
    match format {
        ReportFormat::Json => "json",
        ReportFormat::Markdown => "md",
        ReportFormat::Html => "html",
        ReportFormat::Csv => "csv",
    }
}

/// `s` with `|` escaped for a Markdown table cell.
pub open spec fn markdown_escaped(s: Seq<char>) -> Seq<char>
    decreases s.len(),
{
    if s.len() == 0 {
        Seq::empty()
    } else {
        markdown_escaped(s.drop_last()) + (if s.last() == '|' { seq!['\\', '|'] } else { seq![s.last()] })
    }
}

/// `s` with the five HTML special characters written as entities.
pub open spec fn html_escaped(s: Seq<char>) -> Seq<char>
    decreases s.len(),
{
    if s.len() == 0 {
        Seq::empty()
    } else {
        html_escaped(s.drop_last()) + html_char(s.last())
    }
}

/// One character of HTML text.
pub open spec fn html_char(c: char) -> Seq<char> {
    if c == '&' {
        "&amp;"@
    } else if c == '<' {
        "&lt;"@
    } else if c == '>' {
        "&gt;"@
    } else if c == '"' {
        "&quot;"@
    } else if c == '\'' {
        "&#39;"@
    } else {
        seq![c]
    }
}

/// HTML text read back: each of the five entities `html_char` writes turned back into
/// its character, every other character kept.
pub open spec fn html_unescaped(t: Seq<char>) -> Seq<char>
    decreases t.len(),
{
    if t.len() == 0 {
        Seq::empty()
    } else if t.len() >= 5 && t.take(5) == seq!['&', 'a', 'm', 'p', ';'] {
        seq!['&'] + html_unescaped(t.skip(5))
    } else if t.len() >= 4 && t.take(4) == seq!['&', 'l', 't', ';'] {
        seq!['<'] + html_unescaped(t.skip(4))
    } else if t.len() >= 4 && t.take(4) == seq!['&', 'g', 't', ';'] {
        seq!['>'] + html_unescaped(t.skip(4))
    } else if t.len() >= 6 && t.take(6) == seq!['&', 'q', 'u', 'o', 't', ';'] {
        seq!['"'] + html_unescaped(t.skip(6))
    } else if t.len() >= 5 && t.take(5) == seq!['&', '#', '3', '9', ';'] {
        seq!['\''] + html_unescaped(t.skip(5))
    } else {
        seq![t[0]] + html_unescaped(t.skip(1))
    }
}

/// A CSV field must be quoted when it holds a comma, a quote or a line break.
pub open spec fn csv_needs_quotes(s: Seq<char>) -> bool {
    exists|i: int| 0 <= i < s.len() && (s[i] == ',' || s[i] == '"' || s[i] == '\n' || s[i] == '\r')
}

/// `s` with every quote doubled.
pub open spec fn quotes_doubled(s: Seq<char>) -> Seq<char>
    decreases s.len(),
{
    if s.len() == 0 {
        Seq::empty()
    } else {
        quotes_doubled(s.drop_last()) + (if s.last() == '"' { seq!['"', '"'] } else { seq![s.last()] })
    }
}

/// `s` as one CSV field.
pub open spec fn csv_escaped(s: Seq<char>) -> Seq<char> {
    if csv_needs_quotes(s) {
        seq!['"'] + quotes_doubled(s) + seq!['"']
    } else {
        s
    }
}

/// Appends `value` escaped for a Markdown table cell.
pub fn push_markdown_escaped(out: &mut String, value: &str)
    ensures
        final(out)@ == old(out)@ + markdown_escaped(value@),
{
    let chars = chars_of(value);
    let ghost start = out@;
    let mut i: usize = 0;
    while i < chars.len()
        invariant
            i <= chars@.len(),
            chars@ == value@,
            out@ == start + markdown_escaped(value@.take(i as int)),
        decreases chars@.len() - i,
    {
        let c = chars[i];
        if c == '|' {
            push_char(out, '\\');
            push_char(out, '|');
        } else {
            push_char(out, c);
        }
        assert(value@.take(i + 1).drop_last() =~= value@.take(i as int));
        i = i + 1;
        assert(out@ =~= start + markdown_escaped(value@.take(i as int)));
    }
    assert(value@.take(i as int) =~= value@);
}

/// Appends `value` escaped for HTML text.
pub fn push_html_escaped(out: &mut String, value: &str)
    ensures
        final(out)@ == old(out)@ + html_escaped(value@),
{
    let chars = chars_of(value);
    let ghost start = out@;
    let mut i: usize = 0;
    while i < chars.len()
        invariant
            i <= chars@.len(),
            chars@ == value@,
            out@ == start + html_escaped(value@.take(i as int)),
        decreases chars@.len() - i,
    {
        let c = chars[i];
        if c == '&' {
            push_all(out, "&amp;");
        } else if c == '<' {
            push_all(out, "&lt;");
        } else if c == '>' {
            push_all(out, "&gt;");
        } else if c == '"' {
            push_all(out, "&quot;");
        } else if c == '\'' {
            push_all(out, "&#39;");
        } else {
            push_char(out, c);
        }
        assert(value@.take(i + 1).drop_last() =~= value@.take(i as int));
        i = i + 1;
        assert(out@ =~= start + html_escaped(value@.take(i as int)));
    }
    assert(value@.take(i as int) =~= value@);
}

/// `value` escaped for HTML text.
pub fn html_escape(value: &str) -> (out: String)
    ensures
        out@ == html_escaped(value@),
{
    let mut out = String::new();
    push_html_escaped(&mut out, value);
    assert(out@ =~= html_escaped(value@));
    out
}

/// `value` escaped for a Markdown table cell.
pub fn markdown_escape(value: &str) -> (out: String)
    ensures
        out@ == markdown_escaped(value@),
{
    let mut out = String::new();
    push_markdown_escaped(&mut out, value);
    assert(out@ =~= markdown_escaped(value@));
    out
}

/// `value` as one CSV field: quoted, with quotes doubled, when it holds a comma, a
/// quote or a line break; unchanged otherwise.
pub fn csv_escape(value: &str) -> (out: String)
    ensures
        out@ == csv_escaped(value@),
{
    let chars = chars_of(value);
    let mut needs = false;
    let mut i: usize = 0;
    while i < chars.len()
        invariant
            i <= chars@.len(),
            chars@ == value@,
            needs == exists|k: int| 0 <= k < i && (value@[k] == ',' || value@[k] == '"' || value@[k] == '\n' || value@[k] == '\r'),
        decreases chars@.len() - i,
    {
        let c = chars[i];
        if c == ',' || c == '"' || c == '\n' || c == '\r' {
            needs = true;
        }
        i = i + 1;
    }
    if !needs {
        return String::from_str(value);
    }
    let mut out = String::new();
    push_char(&mut out, '"');
    let ghost start = out@;
    let mut j: usize = 0;
    while j < chars.len()
        invariant
            j <= chars@.len(),
            chars@ == value@,
            out@ == start + quotes_doubled(value@.take(j as int)),
        decreases chars@.len() - j,
    {
        let c = chars[j];
        if c == '"' {
            push_char(&mut out, '"');
            push_char(&mut out, '"');
        } else {
            push_char(&mut out, c);
        }
        assert(value@.take(j + 1).drop_last() =~= value@.take(j as int));
        j = j + 1;
        assert(out@ =~= start + quotes_doubled(value@.take(j as int)));
    }
    assert(value@.take(j as int) =~= value@);
    push_char(&mut out, '"');
    assert(out@ =~= csv_escaped(value@));
    out
}

/// Appends `value` as one CSV field.
fn push_csv_escaped(out: &mut String, value: &str)
    ensures
        final(out)@ == old(out)@ + csv_escaped(value@),
{
    let field = csv_escape(value);
    push_all(out, field.as_str());
}

/// Each number written in decimal, each preceded by `sep`.
pub open spec fn number_cells(values: Seq<usize>, sep: Seq<char>) -> Seq<char>
    decreases values.len(),
{
    if values.len() == 0 {
        Seq::empty()
    } else {
        number_cells(values.drop_last(), sep) + sep + decimal(values.last() as nat)
    }
}

/// Appends each number in decimal, each preceded by `sep`.
fn push_number_cells(out: &mut String, values: &Vec<usize>, sep: &str)
    ensures
        final(out)@ == old(out)@ + number_cells(values@, sep@),
{
    let ghost start = out@;
    let mut i: usize = 0;
    while i < values.len()
        invariant
            i <= values@.len(),
            out@ == start + number_cells(values@.take(i as int), sep@),
        decreases values@.len() - i,
    {
        push_all(out, sep);
        push_decimal(out, values[i]);
        assert(values@.take(i + 1).drop_last() =~= values@.take(i as int));
        i = i + 1;
        assert(out@ =~= start + number_cells(values@.take(i as int), sep@));
    }
    assert(values@.take(i as int) =~= values@);
}

/// The counts of a language, in table order: files, total, code, comments, documents, blank.
pub open spec fn language_numbers(l: LanguageStat) -> Seq<usize> {
    seq![l.files, l.total_lines, l.code_lines, l.comment_lines, l.document_lines, l.blank_lines]
}

/// The counts of a file, in table order: total, code, comments, documents, blank.
pub open spec fn file_numbers(f: FileStat) -> Seq<usize> {
    seq![f.total_lines, f.code_lines, f.comment_lines, f.document_lines, f.blank_lines]
}

/// The counts of a summary, in table order: files, total, code, comments, documents, blank.
pub open spec fn summary_numbers(s: ScanSummary) -> Seq<usize> {
    seq![s.files, s.total_lines, s.code_lines, s.comment_lines, s.document_lines, s.blank_lines]
}

fn language_number_vec(l: &LanguageStat) -> (v: Vec<usize>)
    ensures
        v@ == language_numbers(*l),
{
    let v = vec![l.files, l.total_lines, l.code_lines, l.comment_lines, l.document_lines, l.blank_lines];
    assert(v@ =~= language_numbers(*l));
    v
}

fn file_number_vec(f: &FileStat) -> (v: Vec<usize>)
    ensures
        v@ == file_numbers(*f),
{
    let v = vec![f.total_lines, f.code_lines, f.comment_lines, f.document_lines, f.blank_lines];
    assert(v@ =~= file_numbers(*f));
    v
}

/// A `.` or `..` component starts at position `i` of `p`.
pub open spec fn dot_component_at(p: Seq<char>, i: int) -> bool {
    &&& p[i] == '.'
    &&& (i + 1 == p.len() || p[i + 1] == '/' || (p[i + 1] == '.' && (i + 2 == p.len() || p[i + 2] == '/')))
}

/// `p` is read the same way on every platform: components split by single `/`, none of
/// them `.` or `..`, no `\` and no `:` (so no platform sees a prefix), perhaps a
/// leading `/` and no trailing one.
pub open spec fn plain_path(p: Seq<char>) -> bool {
    &&& p.len() > 0
    &&& p.last() != '/'
    &&& forall|i: int| 0 <= i < p.len() ==> p[i] != '\\' && p[i] != ':'
    &&& forall|i: int| 0 <= i < p.len() - 1 ==> !(#[trigger] p[i] == '/' && p[i + 1] == '/')
    &&& forall|i: int| 0 <= i < p.len() && (i == 0 || p[i - 1] == '/') ==> !#[trigger] dot_component_at(p, i)
}

/// `p` is a plain path, or `.`, or a plain relative path after `./`: a path that every
/// platform splits into the same components, the first perhaps the current directory.
pub open spec fn dotted_path(p: Seq<char>) -> bool {
    ||| plain_path(p)
    ||| p == seq!['.']
    ||| (p.len() > 2 && p[0] == '.' && p[1] == '/' && p[2] != '/' && plain_path(p.skip(2)))
}

/// A path of the kind `dotted_path` describes holds no `\\`.
pub proof fn lemma_dotted_slash_separated(p: Seq<char>)
    requires
        dotted_path(p),
    ensures
        slash_separated(p),
{
    if !plain_path(p) && p != seq!['.'] {
        assert forall|k: int| 0 <= k < p.len() implies p[k] != '\\' by {
            if k >= 2 {
                assert(p[k] == p.skip(2)[k - 2]);
            }
        }
    }
}

/// The components of `root` begin the components of `path`, for plain paths: `path` is
/// `root`, or `root` followed by `/` and more.
pub open spec fn below_root(path: Seq<char>, root: Seq<char>) -> bool {
    ||| path == root
    ||| (path.len() > root.len() && path.take(root.len() as int) == root && path[root.len() as int] == '/')
}

/// What is left of `path` below `root`, for a plain `path` that is `root` or below it:
/// nothing, or the text after `root` and its `/`.
pub open spec fn rest_below(path: Seq<char>, root: Seq<char>) -> Seq<char> {
    if path == root {
        Seq::empty()
    } else {
        path.skip(root.len() + 1 as int)
    }
}

/// The part of `path` below `root`, as `Path::strip_prefix` finds it, written out with
/// `to_string_lossy`. Its documentation says that it fails where `root` is not a prefix
/// of `path`, whole components only being compared, and that otherwise it gives the
/// path that, joined onto `root`, yields `path`. For two paths of the kind
/// `dotted_path` describes, which every platform splits into the same components at
/// each `/`, that is: nothing when `path`
/// is not `root` or below it, else the components after those of `root`, which is the
/// text after `root` and its `/`. For other paths nothing is stated: how they split
/// depends on the platform.
#[verifier::external_body]
fn strip_root(path: &str, root: &str) -> (rest: Option<String>)
    ensures
        dotted_path(path@) && dotted_path(root@) ==> match rest {
            Some(r) => below_root(path@, root@) && r@ == rest_below(path@, root@),
            None => !below_root(path@, root@),
        },
{
    match std::path::Path::new(path).strip_prefix(root) {
        Ok(rest) => Some(rest.to_string_lossy().into_owned()),
        Err(_) => None,
    }
}

/// `s` holds no `\`.
pub open spec fn slash_separated(s: Seq<char>) -> bool {
    forall|k: int| 0 <= k < s.len() ==> s[k] != '\\'
}

/// How reports show a `path` of a scan of `root`, for paths of the kind `dotted_path`
/// describes: the part below the root when it
/// is below it, else the path itself.
pub open spec fn display_text(path: Seq<char>, root: Seq<char>) -> Seq<char> {
    if below_root(path, root) {
        rest_below(path, root)
    } else {
        path
    }
}

/// `shown` is how reports may show `path` in a scan of `root`: it holds no `\`, and for
/// plain paths it is `display_text`.
pub open spec fn shows_path(shown: Seq<char>, path: Seq<char>, root: Seq<char>) -> bool {
    &&& slash_separated(shown)
    &&& (dotted_path(path) && dotted_path(root) ==> shown == display_text(path, root))
}

/// A file's path as reports show it: relative to the scanned root where the platform
/// finds the root to be a prefix of it, with every `\` written as `/`. For paths of the
/// kind `dotted_path` describes (so also `./src/main.rs` in a scan of `.`) that is the
/// text after the root and its `/` when the path is below the root, nothing
/// when it is the root, and the path itself otherwise.
pub fn display_path(path: &str, root: &str) -> (shown: String)
    ensures
        shows_path(shown@, path@, root@),
{
    let shown = match strip_root(path, root) {
        Some(rest) => {
            let shown = replace_char_exec(rest.as_str(), '\\', '/');
            proof {
                if dotted_path(path@) && dotted_path(root@) {
                    lemma_dotted_slash_separated(path@);
                    assert(forall|k: int| 0 <= k < rest@.len() ==> rest@[k] != '\\') by {
                        if path@ != root@ {
                            assert forall|k: int| 0 <= k < rest@.len() implies rest@[k] != '\\' by {
                                assert(rest@[k] == path@[k + root@.len() + 1 as int]);
                            }
                        }
                    }
                    assert(shown@ =~= rest@);
                }
            }
            shown
        },
        None => {
            let shown = replace_char_exec(path, '\\', '/');
            proof {
                if dotted_path(path@) {
                    lemma_dotted_slash_separated(path@);
                    assert(shown@ =~= path@);
                }
            }
            shown
        },
    };
    shown
}

/// `paths` holds one entry for each file of each language of `report`.
pub open spec fn paths_fit(report: ScanReport, paths: Seq<Seq<Seq<char>>>) -> bool {
    &&& paths.len() == report.languages@.len()
    &&& forall|i: int| 0 <= i < paths.len() ==> #[trigger] paths[i].len() == report.languages@[i].file_stats@.len()
}

/// Every entry of `paths` shows its file's path as `display_path` does.
pub open spec fn paths_show(report: ScanReport, paths: Seq<Seq<Seq<char>>>) -> bool {
    forall|i: int, j: int|
        0 <= i < paths.len() && 0 <= j < paths[i].len() ==> shows_path(
            #[trigger] paths[i][j],
            report.languages@[i].file_stats@[j].path@,
            report.summary.root@,
        )
}

/// The display path of every file of every language of `report`.
pub fn display_paths(report: &ScanReport) -> (paths: Vec<Vec<String>>)
    ensures
        paths_fit(*report, paths.deep_view()),
        paths_show(*report, paths.deep_view()),
{
    let mut paths: Vec<Vec<String>> = Vec::new();
    let mut i: usize = 0;
    while i < report.languages.len()
        invariant
            i <= report.languages@.len(),
            paths@.len() == i,
            forall|k: int| 0 <= k < i ==> #[trigger] paths@[k]@.len() == report.languages@[k].file_stats@.len(),
            forall|k: int, j: int|
                0 <= k < i && 0 <= j < paths@[k]@.len() ==> shows_path(
                    (#[trigger] paths@[k]@[j])@,
                    report.languages@[k].file_stats@[j].path@,
                    report.summary.root@,
                ),
        decreases report.languages@.len() - i,
    {
        let language = &report.languages[i];
        let mut shown: Vec<String> = Vec::new();
        let mut j: usize = 0;
        while j < language.file_stats.len()
            invariant
                j <= language.file_stats@.len(),
                shown@.len() == j,
                forall|q: int|
                    0 <= q < j ==> shows_path(
                        (#[trigger] shown@[q])@,
                        language.file_stats@[q].path@,
                        report.summary.root@,
                    ),
            decreases language.file_stats@.len() - j,
        {
            let p = display_path(language.file_stats[j].path.as_str(), report.summary.root.as_str());
            shown.push(p);
            j = j + 1;
        }
        paths.push(shown);
        i = i + 1;
    }
    proof {
        let dv = paths.deep_view();
        assert forall|k: int| 0 <= k < dv.len() implies #[trigger] dv[k].len() == report.languages@[k].file_stats@.len() by {
            assert(dv[k] == paths@[k].deep_view());
        }
        assert forall|k: int, j: int| 0 <= k < dv.len() && 0 <= j < dv[k].len() implies shows_path(
            #[trigger] dv[k][j],
            report.languages@[k].file_stats@[j].path@,
            report.summary.root@,
        ) by {
            assert(dv[k] == paths@[k].deep_view());
            assert(dv[k][j] == paths@[k]@[j]@);
        }
    }
    paths
}

// ---------------------------------------------------------------- Markdown

/// One line `prefix N` of the Markdown summary.
pub open spec fn md_metric(label: Seq<char>, value: usize) -> Seq<char> {
    label + decimal(value as nat) + "\n"@
}

/// The title and summary list of a Markdown report.
pub open spec fn md_summary(s: ScanSummary) -> Seq<char> {
    "# code-count report\n\n"@ + "- Root: "@ + s.root@ + "\n"@
        + md_metric("- Files: "@, s.files)
        + md_metric("- Total lines: "@, s.total_lines)
        + md_metric("- Code lines: "@, s.code_lines)
        + md_metric("- Comment lines: "@, s.comment_lines)
        + md_metric("- Document lines: "@, s.document_lines)
        + md_metric("- Blank lines: "@, s.blank_lines)
}

/// The table row of a language in a Markdown report.
pub open spec fn md_language_row(l: LanguageStat) -> Seq<char> {
    "| "@ + markdown_escaped(l.name@) + number_cells(language_numbers(l), " | "@) + " |\n"@
}

/// The table row of a file in a Markdown report.
pub open spec fn md_file_row(f: FileStat, shown: Seq<char>) -> Seq<char> {
    "| "@ + markdown_escaped(shown) + number_cells(file_numbers(f), " | "@) + " |\n"@
}

/// The rows of the first `n` files.
pub open spec fn md_file_rows(files: Seq<FileStat>, shown: Seq<Seq<char>>, n: int) -> Seq<char>
    decreases n,
{
    if n <= 0 {
        Seq::empty()
    } else {
        md_file_rows(files, shown, n - 1) + md_file_row(files[n - 1], shown[n - 1])
    }
}

/// The file table of a language in a Markdown report.
pub open spec fn md_file_section(l: LanguageStat, shown: Seq<Seq<char>>) -> Seq<char> {
    "\n### "@ + markdown_escaped(l.name@) + "\n\n"@
        + "| File | Total | Code | Comments | Documents | Blank |\n"@
        + "| --- | ---: | ---: | ---: | ---: | ---: |\n"@
        + md_file_rows(l.file_stats@, shown, l.file_stats@.len() as int) + "\n"@
}

/// The rows, and file tables when asked for, of the first `n` languages.
pub open spec fn md_languages(langs: Seq<LanguageStat>, paths: Seq<Seq<Seq<char>>>, files: bool, n: int) -> Seq<char>
    decreases n,
{
    if n <= 0 {
        Seq::empty()
    } else {
        md_languages(langs, paths, files, n - 1) + md_language_row(langs[n - 1]) + (if files {
            md_file_section(langs[n - 1], paths[n - 1])
        } else {
            Seq::empty()
        })
    }
}

/// A Markdown report: a summary list, then, when asked for, a table of languages, each
/// followed by a table of its files when those are asked for too.
pub open spec fn markdown_text(report: ScanReport, options: ReportRenderOptions, paths: Seq<Seq<Seq<char>>>) -> Seq<char> {
    md_summary(report.summary) + (if options.include_language_details {
        "\n## Languages\n\n"@
            + "| Language | Files | Total | Code | Comments | Documents | Blank |\n"@
            + "| --- | ---: | ---: | ---: | ---: | ---: | ---: |\n"@
            + md_languages(report.languages@, paths, options.include_file_details, report.languages@.len() as int)
    } else {
        Seq::empty()
    })
}

fn push_md_metric(out: &mut String, label: &str, value: usize)
    ensures
        final(out)@ == old(out)@ + md_metric(label@, value),
{
    push_all(out, label);
    push_decimal(out, value);
    push_all(out, "\n");
    assert(final(out)@ =~= old(out)@ + md_metric(label@, value));
}

fn push_md_summary(out: &mut String, s: &ScanSummary)
    ensures
        final(out)@ == old(out)@ + md_summary(*s),
{
    let ghost start = out@;
    push_all(out, "# code-count report\n\n");
    push_all(out, "- Root: ");
    push_all(out, s.root.as_str());
    push_all(out, "\n");
    push_md_metric(out, "- Files: ", s.files);
    push_md_metric(out, "- Total lines: ", s.total_lines);
    push_md_metric(out, "- Code lines: ", s.code_lines);
    push_md_metric(out, "- Comment lines: ", s.comment_lines);
    push_md_metric(out, "- Document lines: ", s.document_lines);
    push_md_metric(out, "- Blank lines: ", s.blank_lines);
    assert(out@ =~= start + md_summary(*s));
}

fn push_md_language_row(out: &mut String, l: &LanguageStat)
    ensures
        final(out)@ == old(out)@ + md_language_row(*l),
{
    let ghost start = out@;
    push_all(out, "| ");
    push_markdown_escaped(out, l.name.as_str());
    let numbers = language_number_vec(l);
    push_number_cells(out, &numbers, " | ");
    push_all(out, " |\n");
    assert(out@ =~= start + md_language_row(*l));
}

fn push_md_file_section(out: &mut String, l: &LanguageStat, shown: &Vec<String>)
    requires
        shown@.len() == l.file_stats@.len(),
    ensures
        final(out)@ == old(out)@ + md_file_section(*l, shown.deep_view()),
{
    let ghost start = out@;
    let ghost dv = shown.deep_view();
    push_all(out, "\n### ");
    push_markdown_escaped(out, l.name.as_str());
    push_all(out, "\n\n");
    push_all(out, "| File | Total | Code | Comments | Documents | Blank |\n");
    push_all(out, "| --- | ---: | ---: | ---: | ---: | ---: |\n");
    let ghost head = out@;
    let mut j: usize = 0;
    while j < l.file_stats.len()
        invariant
            j <= l.file_stats@.len(),
            shown@.len() == l.file_stats@.len(),
            dv == shown.deep_view(),
            out@ == head + md_file_rows(l.file_stats@, dv, j as int),
        decreases l.file_stats@.len() - j,
    {
        let ghost before = out@;
        let f = &l.file_stats[j];
        push_all(out, "| ");
        push_markdown_escaped(out, shown[j].as_str());
        let numbers = file_number_vec(f);
        push_number_cells(out, &numbers, " | ");
        push_all(out, " |\n");
        assert(dv[j as int] == shown@[j as int]@);
        assert(out@ =~= before + md_file_row(*f, dv[j as int]));
        j = j + 1;
        assert(out@ =~= head + md_file_rows(l.file_stats@, dv, j as int));
    }
    push_all(out, "\n");
    assert(out@ =~= start + md_file_section(*l, dv));
}

/// The Markdown report, with `paths` as the display paths of the files.
pub fn render_markdown_with_paths(report: &ScanReport, options: &ReportRenderOptions, paths: &Vec<Vec<String>>) -> (out: String)
    requires
        paths_fit(*report, paths.deep_view()),
    ensures
        out@ == markdown_text(*report, *options, paths.deep_view()),
{
    let ghost pv = paths.deep_view();
    let mut out = String::new();
    push_md_summary(&mut out, &report.summary);
    let ghost after_summary = out@;
    if options.include_language_details {
        push_all(&mut out, "\n## Languages\n\n");
        push_all(&mut out, "| Language | Files | Total | Code | Comments | Documents | Blank |\n");
        push_all(&mut out, "| --- | ---: | ---: | ---: | ---: | ---: | ---: |\n");
        let ghost head = out@;
        let mut i: usize = 0;
        while i < report.languages.len()
            invariant
                i <= report.languages@.len(),
                pv == paths.deep_view(),
                paths_fit(*report, pv),
                out@ == head + md_languages(report.languages@, pv, options.include_file_details, i as int),
            decreases report.languages@.len() - i,
        {
            let ghost before = out@;
            let language = &report.languages[i];
            push_md_language_row(&mut out, language);
            if options.include_file_details {
                assert(pv[i as int] == paths@[i as int].deep_view());
                assert(pv[i as int].len() == language.file_stats@.len());
                push_md_file_section(&mut out, language, &paths[i]);
            }
            i = i + 1;
            assert(out@ =~= head + md_languages(report.languages@, pv, options.include_file_details, i as int));
        }
        assert(out@ =~= markdown_text(*report, *options, pv));
    } else {
        assert(out@ =~= markdown_text(*report, *options, pv));
    }
    out
}

/// The Markdown report of `report`. What it holds is `markdown_text` with the display
/// paths that `display_paths` gives.
pub fn render_markdown_report(report: &ScanReport, options: &ReportRenderOptions) -> (out: String)
    ensures
        exists|paths: Seq<Seq<Seq<char>>>| paths_fit(*report, paths) && paths_show(*report, paths) && out@ == markdown_text(*report, *options, paths),
{
    let paths = display_paths(report);
    render_markdown_with_paths(report, options, &paths)
}

// ---------------------------------------------------------------- CSV

/// The header line of a CSV report.
pub open spec fn csv_header() -> Seq<char> {
    "kind,name,files,total,code,comments,documents,blank\n"@
}

/// A CSV record: its kind, a name field, then the numbers.
pub open spec fn csv_record(kind: Seq<char>, name: Seq<char>, numbers: Seq<usize>) -> Seq<char> {
    kind + csv_escaped(name) + number_cells(numbers, ","@) + "\n"@
}

/// The records of the first `n` files; each counts as one file.
pub open spec fn csv_file_records(files: Seq<FileStat>, shown: Seq<Seq<char>>, n: int) -> Seq<char>
    decreases n,
{
    if n <= 0 {
        Seq::empty()
    } else {
        csv_file_records(files, shown, n - 1) + csv_record(
            "file,"@,
            shown[n - 1],
            seq![1usize] + file_numbers(files[n - 1]),
        )
    }
}

/// The records of the first `n` languages, each followed by its files' when asked for.
pub open spec fn csv_languages(langs: Seq<LanguageStat>, paths: Seq<Seq<Seq<char>>>, files: bool, n: int) -> Seq<char>
    decreases n,
{
    if n <= 0 {
        Seq::empty()
    } else {
        csv_languages(langs, paths, files, n - 1) + csv_record("language,"@, langs[n - 1].name@, language_numbers(langs[n - 1]))
            + (if files {
            csv_file_records(langs[n - 1].file_stats@, paths[n - 1], langs[n - 1].file_stats@.len() as int)
        } else {
            Seq::empty()
        })
    }
}

/// A CSV report: a header, the summary record, then, when asked for, a record per
/// language, each followed by a record per file when those are asked for too.
pub open spec fn csv_text(report: ScanReport, options: ReportRenderOptions, paths: Seq<Seq<Seq<char>>>) -> Seq<char> {
    csv_header() + csv_record("summary,"@, report.summary.root@, summary_numbers(report.summary)) + (
    if options.include_language_details {
        csv_languages(report.languages@, paths, options.include_file_details, report.languages@.len() as int)
    } else {
        Seq::empty()
    })
}

fn push_csv_record(out: &mut String, kind: &str, name: &str, numbers: &Vec<usize>)
    ensures
        final(out)@ == old(out)@ + csv_record(kind@, name@, numbers@),
{
    let ghost start = out@;
    push_all(out, kind);
    push_csv_escaped(out, name);
    push_number_cells(out, numbers, ",");
    push_all(out, "\n");
    assert(out@ =~= start + csv_record(kind@, name@, numbers@));
}

/// The CSV report, with `paths` as the display paths of the files.
pub fn render_csv_with_paths(report: &ScanReport, options: &ReportRenderOptions, paths: &Vec<Vec<String>>) -> (out: String)
    requires
        paths_fit(*report, paths.deep_view()),
    ensures
        out@ == csv_text(*report, *options, paths.deep_view()),
{
    let ghost pv = paths.deep_view();
    let mut out = String::new();
    push_all(&mut out, "kind,name,files,total,code,comments,documents,blank\n");
    let s = &report.summary;
    let numbers = vec![s.files, s.total_lines, s.code_lines, s.comment_lines, s.document_lines, s.blank_lines];
    assert(numbers@ =~= summary_numbers(*s));
    push_csv_record(&mut out, "summary,", s.root.as_str(), &numbers);
    let ghost head = out@;
    if options.include_language_details {
        let mut i: usize = 0;
        while i < report.languages.len()
            invariant
                i <= report.languages@.len(),
                pv == paths.deep_view(),
                paths_fit(*report, pv),
                out@ == head + csv_languages(report.languages@, pv, options.include_file_details, i as int),
            decreases report.languages@.len() - i,
        {
            let ghost before = out@;
            let language = &report.languages[i];
            let numbers = language_number_vec(language);
            push_csv_record(&mut out, "language,", language.name.as_str(), &numbers);
            let ghost mid = out@;
            if options.include_file_details {
                let shown = &paths[i];
                assert(pv[i as int] == shown.deep_view());
                assert(shown@.len() == language.file_stats@.len());
                let mut j: usize = 0;
                while j < language.file_stats.len()
                    invariant
                        j <= language.file_stats@.len(),
                        shown@.len() == language.file_stats@.len(),
                        pv[i as int] == shown.deep_view(),
                        out@ == mid + csv_file_records(language.file_stats@, pv[i as int], j as int),
                    decreases language.file_stats@.len() - j,
                {
                    let ghost before_file = out@;
                    let f = &language.file_stats[j];
                    let numbers = vec![1usize, f.total_lines, f.code_lines, f.comment_lines, f.document_lines, f.blank_lines];
                    assert(numbers@ =~= seq![1usize] + file_numbers(*f));
                    push_csv_record(&mut out, "file,", shown[j].as_str(), &numbers);
                    assert(pv[i as int][j as int] == shown@[j as int]@);
                    j = j + 1;
                    assert(out@ =~= mid + csv_file_records(language.file_stats@, pv[i as int], j as int));
                }
            }
            i = i + 1;
            assert(out@ =~= head + csv_languages(report.languages@, pv, options.include_file_details, i as int));
        }
    }
    assert(out@ =~= csv_text(*report, *options, pv));
    out
}

/// The CSV report of `report`. What it holds is `csv_text` with the display paths that
/// `display_paths` gives.
pub fn render_csv_report(report: &ScanReport, options: &ReportRenderOptions) -> (out: String)
    ensures
        exists|paths: Seq<Seq<Seq<char>>>| paths_fit(*report, paths) && paths_show(*report, paths) && out@ == csv_text(*report, *options, paths),
{
    let paths = display_paths(report);
    render_csv_with_paths(report, options, &paths)
}

// ---------------------------------------------------------------- HTML

/// The style sheet of an HTML report.
pub const HTML_STYLE: &'static str = ":root{color-scheme:light dark;--bg:#f6f7f9;--panel:#ffffff;--text:#1d2430;--muted:#667085;--border:#d9dee7;--code:#2f855a;--comments:#2b6cb0;--docs:#b7791f;--blank:#718096}\
body{margin:0;font-family:Segoe UI,Arial,sans-serif;background:var(--bg);color:var(--text);line-height:1.45}\
main{max-width:1120px;margin:0 auto;padding:32px 20px 48px}\
h1{margin:0 0 6px;font-size:32px}\
h2{margin:32px 0 12px;font-size:22px}\
h3{margin:24px 0 10px;font-size:18px}\
.root{color:var(--muted);margin:0 0 24px;word-break:break-all}\
.metrics{display:grid;grid-template-columns:repeat(auto-fit,minmax(140px,1fr));gap:12px;margin:20px 0 24px}\
.metric{background:var(--panel);border:1px solid var(--border);border-radius:8px;padding:14px}\
.metric span{display:block;color:var(--muted);font-size:13px}\
.metric strong{display:block;font-size:24px;margin-top:4px}\
.bar{display:flex;height:16px;border-radius:999px;overflow:hidden;background:#e6e9ef;margin:10px 0 12px}\
.bar div{min-width:1px}\
.code{background:var(--code)}.comments{background:var(--comments)}.docs{background:var(--docs)}.blank{background:var(--blank)}\
.legend{display:flex;flex-wrap:wrap;gap:12px;color:var(--muted);font-size:14px}.legend b{color:var(--text)}\
table{width:100%;border-collapse:collapse;background:var(--panel);border:1px solid var(--border);border-radius:8px;overflow:hidden}\
th,td{padding:10px 12px;border-bottom:1px solid var(--border);text-align:right}\
th:first-child,td:first-child{text-align:left}\
tr:last-child td{border-bottom:0}\
th{color:var(--muted);font-weight:600}\
@media(prefers-color-scheme:dark){:root{--bg:#0b0f17;--panel:#121826;--text:#e6eaf2;--muted:#99a3b5;--border:#273244}}\n";

/// The widths of the four composition bar segments (code, comments, documents, blank
/// lines), each as a percentage of all lines written with two decimals.
#[derive(Debug, Clone, PartialEq, Eq)]
pub struct BarWidths {
    pub code: String,
    pub comments: String,
    pub documents: String,
    pub blanks: String,
}

/// The document head and title of an HTML report.
pub open spec fn html_head() -> Seq<char> {
    "<!doctype html>\n"@ + "<html lang=\"en\">\n<head>\n"@ + "<meta charset=\"utf-8\">\n"@
        + "<meta name=\"viewport\" content=\"width=device-width, initial-scale=1\">\n"@
        + "<title>code-count report</title>\n"@ + "<style>\n"@ + HTML_STYLE@
        + "</style>\n</head>\n<body>\n<main>\n"@ + "<h1>code-count report</h1>\n"@
}

/// One summary metric of an HTML report.
pub open spec fn html_metric(label: Seq<char>, value: usize) -> Seq<char> {
    "<div class=\"metric\"><span>"@ + html_escaped(label) + "</span><strong>"@ + decimal(value as nat)
        + "</strong></div>\n"@
}

/// The root line and summary metrics of an HTML report.
pub open spec fn html_summary(s: ScanSummary) -> Seq<char> {
    "<p class=\"root\">Root: "@ + html_escaped(s.root@) + "</p>\n"@
        + "<section class=\"metrics\" aria-label=\"Summary metrics\">\n"@
        + html_metric("Files"@, s.files)
        + html_metric("Total lines"@, s.total_lines)
        + html_metric("Code lines"@, s.code_lines)
        + html_metric("Comment lines"@, s.comment_lines)
        + html_metric("Document lines"@, s.document_lines)
        + html_metric("Blank lines"@, s.blank_lines)
        + "</section>\n"@
}

/// One segment of the composition bar; a category without lines has none.
pub open spec fn bar_segment_text(class_name: Seq<char>, value: usize, width: Seq<char>) -> Seq<char> {
    if value == 0 {
        Seq::empty()
    } else {
        "<div class=\""@ + html_escaped(class_name) + "\" style=\"width:"@ + width + "%\"></div>\n"@
    }
}

/// The composition bar and its legend.
pub open spec fn html_composition(report: ScanReport, widths: BarWidths) -> Seq<char> {
    let c = report.categories;
    "<h2>Composition</h2>\n"@ + "<div class=\"bar\" aria-label=\"Line composition\">\n"@
        + bar_segment_text("code"@, c.code, widths.code@)
        + bar_segment_text("comments"@, c.comments, widths.comments@)
        + bar_segment_text("docs"@, c.documents, widths.documents@)
        + bar_segment_text("blank"@, c.blanks, widths.blanks@)
        + "</div>\n"@ + "<div class=\"legend\">"@
        + "<span><b>Code</b> "@ + decimal(c.code as nat) + "</span>"@
        + "<span><b>Comments</b> "@ + decimal(c.comments as nat) + "</span>"@
        + "<span><b>Docs</b> "@ + decimal(c.documents as nat) + "</span>"@
        + "<span><b>Blank</b> "@ + decimal(c.blanks as nat) + "</span>"@
        + "</div>\n"@
}

/// A table row of an HTML report: the first cell escaped, then the numbers.
pub open spec fn html_row(first: Seq<char>, numbers: Seq<usize>) -> Seq<char> {
    "<tr><td>"@ + html_escaped(first) + number_cells(numbers, "</td><td>"@) + "</td></tr>\n"@
}

/// The rows of the first `n` languages.
pub open spec fn html_language_rows(langs: Seq<LanguageStat>, n: int) -> Seq<char>
    decreases n,
{
    if n <= 0 {
        Seq::empty()
    } else {
        html_language_rows(langs, n - 1) + html_row(langs[n - 1].name@, language_numbers(langs[n - 1]))
    }
}

/// The rows of the first `n` files.
pub open spec fn html_file_rows(files: Seq<FileStat>, shown: Seq<Seq<char>>, n: int) -> Seq<char>
    decreases n,
{
    if n <= 0 {
        Seq::empty()
    } else {
        html_file_rows(files, shown, n - 1) + html_row(shown[n - 1], file_numbers(files[n - 1]))
    }
}

/// The file table of one language.
pub open spec fn html_file_table(l: LanguageStat, shown: Seq<Seq<char>>) -> Seq<char> {
    "<h3>"@ + html_escaped(l.name@) + "</h3>\n"@
        + "<table>\n<thead><tr><th>File</th><th>Total</th><th>Code</th><th>Comments</th><th>Documents</th><th>Blank</th></tr></thead>\n<tbody>\n"@
        + html_file_rows(l.file_stats@, shown, l.file_stats@.len() as int) + "</tbody>\n</table>\n"@
}

/// The file tables of the first `n` languages.
pub open spec fn html_file_tables(langs: Seq<LanguageStat>, paths: Seq<Seq<Seq<char>>>, n: int) -> Seq<char>
    decreases n,
{
    if n <= 0 {
        Seq::empty()
    } else {
        html_file_tables(langs, paths, n - 1) + html_file_table(langs[n - 1], paths[n - 1])
    }
}

/// The language table and, when asked for, the file tables.
pub open spec fn html_details(report: ScanReport, options: ReportRenderOptions, paths: Seq<Seq<Seq<char>>>) -> Seq<char> {
    if options.include_language_details {
        "<h2>Languages</h2>\n"@
            + "<table>\n<thead><tr><th>Language</th><th>Files</th><th>Total</th><th>Code</th><th>Comments</th><th>Documents</th><th>Blank</th></tr></thead>\n<tbody>\n"@
            + html_language_rows(report.languages@, report.languages@.len() as int) + "</tbody>\n</table>\n"@
            + (if options.include_file_details {
            html_file_tables(report.languages@, paths, report.languages@.len() as int)
        } else {
            Seq::empty()
        })
    } else {
        Seq::empty()
    }
}

/// A self-contained HTML report: summary metrics, the composition bar, then the tables
/// that `options` asks for.
pub open spec fn html_text(report: ScanReport, options: ReportRenderOptions, paths: Seq<Seq<Seq<char>>>, widths: BarWidths) -> Seq<char> {
    html_head() + html_summary(report.summary) + html_composition(report, widths) + html_details(report, options, paths)
        + "</main>\n</body>\n</html>\n"@
}

/// Appends one summary metric.
pub fn metric(out: &mut String, label: &str, value: usize)
    ensures
        final(out)@ == old(out)@ + html_metric(label@, value),
{
    let ghost start = out@;
    push_all(out, "<div class=\"metric\"><span>");
    push_html_escaped(out, label);
    push_all(out, "</span><strong>");
    push_decimal(out, value);
    push_all(out, "</strong></div>\n");
    assert(out@ =~= start + html_metric(label@, value));
}

/// Appends one segment of the composition bar, `width` percent wide; nothing for a
/// category without lines.
pub fn bar_segment(out: &mut String, class_name: &str, value: usize, width: &str)
    ensures
        final(out)@ == old(out)@ + bar_segment_text(class_name@, value, width@),
{
    if value == 0 {
        assert(out@ =~= old(out)@ + bar_segment_text(class_name@, value, width@));
        return;
    }
    let ghost start = out@;
    push_all(out, "<div class=\"");
    push_html_escaped(out, class_name);
    push_all(out, "\" style=\"width:");
    push_all(out, width);
    push_all(out, "%\"></div>\n");
    assert(out@ =~= start + bar_segment_text(class_name@, value, width@));
}

fn push_legend_entry(out: &mut String, label: &str, value: usize)
    ensures
        final(out)@ == old(out)@ + label@ + decimal(value as nat) + "</span>"@,
{
    let ghost start = out@;
    push_all(out, label);
    push_decimal(out, value);
    push_all(out, "</span>");
    assert(out@ =~= start + label@ + decimal(value as nat) + "</span>"@);
}

fn push_html_head_and_summary(out: &mut String, s: &ScanSummary)
    ensures
        final(out)@ == old(out)@ + html_head() + html_summary(*s),
{
    let ghost start = out@;
    push_all(out, "<!doctype html>\n");
    push_all(out, "<html lang=\"en\">\n<head>\n");
    push_all(out, "<meta charset=\"utf-8\">\n");
    push_all(out, "<meta name=\"viewport\" content=\"width=device-width, initial-scale=1\">\n");
    push_all(out, "<title>code-count report</title>\n");
    push_all(out, "<style>\n");
    push_all(out, HTML_STYLE);
    push_all(out, "</style>\n</head>\n<body>\n<main>\n");
    push_all(out, "<h1>code-count report</h1>\n");
    assert(out@ =~= start + html_head());
    let ghost mid = out@;
    push_all(out, "<p class=\"root\">Root: ");
    push_html_escaped(out, s.root.as_str());
    push_all(out, "</p>\n");
    push_all(out, "<section class=\"metrics\" aria-label=\"Summary metrics\">\n");
    metric(out, "Files", s.files);
    metric(out, "Total lines", s.total_lines);
    metric(out, "Code lines", s.code_lines);
    metric(out, "Comment lines", s.comment_lines);
    metric(out, "Document lines", s.document_lines);
    metric(out, "Blank lines", s.blank_lines);
    push_all(out, "</section>\n");
    assert(out@ =~= mid + html_summary(*s));
}

fn push_html_composition(out: &mut String, report: &ScanReport, widths: &BarWidths)
    ensures
        final(out)@ == old(out)@ + html_composition(*report, *widths),
{
    let ghost start = out@;
    let c = &report.categories;
    push_all(out, "<h2>Composition</h2>\n");
    push_all(out, "<div class=\"bar\" aria-label=\"Line composition\">\n");
    bar_segment(out, "code", c.code, widths.code.as_str());
    bar_segment(out, "comments", c.comments, widths.comments.as_str());
    bar_segment(out, "docs", c.documents, widths.documents.as_str());
    bar_segment(out, "blank", c.blanks, widths.blanks.as_str());
    push_all(out, "</div>\n");
    push_all(out, "<div class=\"legend\">");
    push_legend_entry(out, "<span><b>Code</b> ", c.code);
    push_legend_entry(out, "<span><b>Comments</b> ", c.comments);
    push_legend_entry(out, "<span><b>Docs</b> ", c.documents);
    push_legend_entry(out, "<span><b>Blank</b> ", c.blanks);
    push_all(out, "</div>\n");
    assert(out@ =~= start + html_composition(*report, *widths));
}

fn push_html_row(out: &mut String, first: &str, numbers: &Vec<usize>)
    ensures
        final(out)@ == old(out)@ + html_row(first@, numbers@),
{
    let ghost start = out@;
    push_all(out, "<tr><td>");
    push_html_escaped(out, first);
    push_number_cells(out, numbers, "</td><td>");
    push_all(out, "</td></tr>\n");
    assert(out@ =~= start + html_row(first@, numbers@));
}

fn push_html_file_table(out: &mut String, l: &LanguageStat, shown: &Vec<String>)
    requires
        shown@.len() == l.file_stats@.len(),
    ensures
        final(out)@ == old(out)@ + html_file_table(*l, shown.deep_view()),
{
    let ghost start = out@;
    let ghost dv = shown.deep_view();
    push_all(out, "<h3>");
    push_html_escaped(out, l.name.as_str());
    push_all(out, "</h3>\n");
    push_all(
        out,
        "<table>\n<thead><tr><th>File</th><th>Total</th><th>Code</th><th>Comments</th><th>Documents</th><th>Blank</th></tr></thead>\n<tbody>\n",
    );
    let ghost head = out@;
    let mut j: usize = 0;
    while j < l.file_stats.len()
        invariant
            j <= l.file_stats@.len(),
            shown@.len() == l.file_stats@.len(),
            dv == shown.deep_view(),
            out@ == head + html_file_rows(l.file_stats@, dv, j as int),
        decreases l.file_stats@.len() - j,
    {
        let numbers = file_number_vec(&l.file_stats[j]);
        push_html_row(out, shown[j].as_str(), &numbers);
        assert(dv[j as int] == shown@[j as int]@);
        j = j + 1;
        assert(out@ =~= head + html_file_rows(l.file_stats@, dv, j as int));
    }
    push_all(out, "</tbody>\n</table>\n");
    assert(out@ =~= start + html_file_table(*l, dv));
}

fn push_html_language_table(out: &mut String, languages: &Vec<LanguageStat>)
    ensures
        final(out)@ == old(out)@ + "<h2>Languages</h2>\n"@
            + "<table>\n<thead><tr><th>Language</th><th>Files</th><th>Total</th><th>Code</th><th>Comments</th><th>Documents</th><th>Blank</th></tr></thead>\n<tbody>\n"@
            + html_language_rows(languages@, languages@.len() as int) + "</tbody>\n</table>\n"@,
{
    let ghost start = out@;
    push_all(out, "<h2>Languages</h2>\n");
    push_all(
        out,
        "<table>\n<thead><tr><th>Language</th><th>Files</th><th>Total</th><th>Code</th><th>Comments</th><th>Documents</th><th>Blank</th></tr></thead>\n<tbody>\n",
    );
    let ghost rows_start = out@;
    let mut i: usize = 0;
    while i < languages.len()
        invariant
            i <= languages@.len(),
            out@ == rows_start + html_language_rows(languages@, i as int),
        decreases languages@.len() - i,
    {
        let language = &languages[i];
        let numbers = language_number_vec(language);
        push_html_row(out, language.name.as_str(), &numbers);
        i = i + 1;
        assert(out@ =~= rows_start + html_language_rows(languages@, i as int));
    }
    push_all(out, "</tbody>\n</table>\n");
    assert(out@ =~= start + "<h2>Languages</h2>\n"@
        + "<table>\n<thead><tr><th>Language</th><th>Files</th><th>Total</th><th>Code</th><th>Comments</th><th>Documents</th><th>Blank</th></tr></thead>\n<tbody>\n"@
        + html_language_rows(languages@, languages@.len() as int) + "</tbody>\n</table>\n"@);
}

fn push_html_file_tables(out: &mut String, report: &ScanReport, paths: &Vec<Vec<String>>)
    requires
        paths_fit(*report, paths.deep_view()),
    ensures
        final(out)@ == old(out)@ + html_file_tables(report.languages@, paths.deep_view(), report.languages@.len() as int),
{
    let ghost pv = paths.deep_view();
    let ghost tables_start = out@;
    let mut k: usize = 0;
    while k < report.languages.len()
        invariant
            k <= report.languages@.len(),
            pv == paths.deep_view(),
            paths_fit(*report, pv),
            out@ == tables_start + html_file_tables(report.languages@, pv, k as int),
        decreases report.languages@.len() - k,
    {
        assert(pv[k as int] == paths@[k as int].deep_view());
        assert(pv[k as int].len() == report.languages@[k as int].file_stats@.len());
        push_html_file_table(out, &report.languages[k], &paths[k]);
        k = k + 1;
        assert(out@ =~= tables_start + html_file_tables(report.languages@, pv, k as int));
    }
}

/// The HTML report, with `paths` as the display paths of the files and `widths` as the
/// widths of the composition bar segments.
#[verifier::spinoff_prover]
#[verifier::rlimit(40)]
pub fn render_html_with_paths(
    report: &ScanReport,
    options: &ReportRenderOptions,
    paths: &Vec<Vec<String>>,
    widths: &BarWidths,
) -> (out: String)
    requires
        paths_fit(*report, paths.deep_view()),
    ensures
        out@ == html_text(*report, *options, paths.deep_view(), *widths),
{
    let ghost pv = paths.deep_view();
    let mut out = String::new();
    push_html_head_and_summary(&mut out, &report.summary);
    push_html_composition(&mut out, report, widths);
    let ghost head = out@;
    if options.include_language_details {
        push_html_language_table(&mut out, &report.languages);
        if options.include_file_details {
            push_html_file_tables(&mut out, report, paths);
        }
        assert(out@ =~= head + html_details(*report, *options, pv));
    } else {
        assert(out@ =~= head + html_details(*report, *options, pv));
    }
    push_all(&mut out, "</main>\n</body>\n</html>\n");
    assert(out@ =~= html_text(*report, *options, pv, *widths));
    out
}

/// The HTML report of `report`, with `widths` as the widths of the composition bar
/// segments. What it holds is `html_text` with the display paths that `display_paths`
/// gives.
pub fn render_html_report(report: &ScanReport, options: &ReportRenderOptions, widths: &BarWidths) -> (out: String)
    ensures
        exists|paths: Seq<Seq<Seq<char>>>| paths_fit(*report, paths) && paths_show(*report, paths) && out@ == html_text(*report, *options, paths, *widths),
{
    let paths = display_paths(report);
    render_html_with_paths(report, options, &paths, widths)
}

} // verus!
