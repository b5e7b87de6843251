//! The text of the terminal UI's panels, as lines of styled spans.
use vstd::prelude::*;
use crate::model::{ScanReport, ScanSummary, LanguageStat, FileStat, sum_of, lemma_sum_step, lemma_sum_prefix_le, lemma_sum_all};
use crate::report::ReportFormat;
use crate::state::{AppState, AppView, AppModel};
use crate::text::{
    chars_of, push_char, push_all, push_decimal, decimal, decimal_string, pad_left, pad_right,
    push_padded_left, push_padded_right,
};

verus! {

/// The colours of the terminal UI, by role.
#[derive(Debug, Clone, Copy, PartialEq, Eq, Structural)]
pub enum Tone {
    Background,
    Panel,
    Border,
    Title,
    Muted,
    Code,
    Comments,
    Docs,
    Brand,
    Selection,
    KeyBackground,
    KeyText,
    Accent,
}

/// Foreground and background colour of a span; `None` keeps the surrounding colour.
#[derive(Debug, Clone, Copy, PartialEq, Eq, Structural)]
pub struct TextStyle {
    pub fg: Option<Tone>,
    pub bg: Option<Tone>,
}

/// A run of text in one style.
#[derive(Debug, Clone, PartialEq, Eq)]
pub struct TextSpan {
    pub text: String,
    pub style: TextStyle,
}

/// One line of a panel.
#[derive(Debug, Clone, PartialEq, Eq)]
pub struct TextLine {
    pub spans: Vec<TextSpan>,
}

/// A span as text and style.
pub open spec fn span_view(s: TextSpan) -> (Seq<char>, TextStyle) {
    (s.text@, s.style)
}

/// A line as its spans.
pub open spec fn line_view(l: TextLine) -> Seq<(Seq<char>, TextStyle)> {
    l.spans@.map_values(|s: TextSpan| span_view(s))
}

/// Lines as their spans.
pub open spec fn lines_view(ls: Seq<TextLine>) -> Seq<Seq<(Seq<char>, TextStyle)>> {
    ls.map_values(|l: TextLine| line_view(l))
}

/// No colour of its own.
pub open spec fn plain() -> TextStyle {
    TextStyle { fg: None, bg: None }
}

/// A foreground colour.
pub open spec fn fg(t: Tone) -> TextStyle {
    TextStyle { fg: Some(t), bg: None }
}

/// A line of one unstyled span.
pub open spec fn text_line(t: Seq<char>) -> Seq<(Seq<char>, TextStyle)> {
    seq![(t, plain())]
}

fn span(text: String, style: TextStyle) -> (s: TextSpan)
    ensures
        span_view(s) == (text@, style),
{
    TextSpan { text, style }
}

fn span_str(text: &str, style: TextStyle) -> (s: TextSpan)
    ensures
        span_view(s) == (text@, style),
{
    TextSpan { text: String::from_str(text), style }
}

fn plain_style() -> (s: TextStyle)
    ensures
        s == plain(),
{
    TextStyle { fg: None, bg: None }
}

fn fg_style(t: Tone) -> (s: TextStyle)
    ensures
        s == fg(t),
{
    TextStyle { fg: Some(t), bg: None }
}

fn line_of(spans: Vec<TextSpan>) -> (l: TextLine)
    ensures
        line_view(l) == spans@.map_values(|s: TextSpan| span_view(s)),
{
    TextLine { spans }
}

/// A line holding `text` unstyled.
fn plain_line(text: String) -> (l: TextLine)
    ensures
        line_view(l) == text_line(text@),
{
    let mut spans: Vec<TextSpan> = Vec::new();
    spans.push(span(text, plain_style()));
    let l = line_of(spans);
    assert(line_view(l) =~= text_line(text@));
    l
}

fn plain_line_str(text: &str) -> (l: TextLine)
    ensures
        line_view(l) == text_line(text@),
{
    plain_line(String::from_str(text))
}

/// `count` copies of `c`.
pub open spec fn repeated(c: char, count: nat) -> Seq<char> {
    Seq::new(count, |i: int| c)
}

fn repeat_char(c: char, count: usize) -> (s: String)
    ensures
        s@ == repeated(c, count as nat),
{
    let mut s = String::new();
    let mut i: usize = 0;
    while i < count
        invariant
            i <= count,
            s@ == repeated(c, i as nat),
        decreases count - i,
    {
        push_char(&mut s, c);
        i = i + 1;
        assert(s@ =~= repeated(c, i as nat));
    }
    s
}

/// The title of a view's panel.
pub open spec fn view_title_text(view: AppView) -> Seq<char> {
    match view {
        AppView::Dashboard => "A. Project Dashboard"@,
        AppView::Explorer => "B. Explorer + Details"@,
        AppView::Report => "C. Report Builder"@,
    }
}

/// The title of a view's panel.
pub fn view_title(view: AppView) -> (t: &'static str)
    ensures
        t@ == view_title_text(view),
{
    match view {
        AppView::Dashboard => "A. Project Dashboard",
        AppView::Explorer => "B. Explorer + Details",
        AppView::Report => "C. Report Builder",
    }
}

/// The command the header shows for a view.
pub open spec fn command_label_text(view: AppView) -> Seq<char> {
    match view {
        AppView::Dashboard => "code-count"@,
        AppView::Explorer => "code-count tui"@,
        AppView::Report => "code-count report"@,
    }
}

/// The command the header shows for the current view.
pub fn command_label(state: &AppState) -> (t: &'static str)
    ensures
        t@ == command_label_text(state@.view),
{
    match state.current_view() {
        AppView::Dashboard => "code-count",
        AppView::Explorer => "code-count tui",
        AppView::Report => "code-count report",
    }
}

/// The status the header shows for a view.
pub open spec fn status_label_text(view: AppView) -> Seq<char> {
    match view {
        AppView::Report => "interactive"@,
        _ => "scan complete"@,
    }
}

/// The status the header shows for the current view.
pub fn status_label(state: &AppState) -> (t: &'static str)
    ensures
        t@ == status_label_text(state@.view),
{
    match state.current_view() {
        AppView::Report => "interactive",
        _ => "scan complete",
    }
}

/// The label of an export format.
pub open spec fn format_label_text(format: ReportFormat) -> Seq<char> {
    match format {
        ReportFormat::Json => "JSON"@,
        ReportFormat::Markdown => "Markdown"@,
        ReportFormat::Html => "HTML"@,
        ReportFormat::Csv => "CSV"@,
    }
}

/// The label of an export format.
pub fn report_format_label(format: ReportFormat) -> (t: &'static str)
    ensures
        t@ == format_label_text(format),
{
    match format {
        ReportFormat::Json => "JSON",
        ReportFormat::Markdown => "Markdown",
        ReportFormat::Html => "HTML",
        ReportFormat::Csv => "CSV",
    }
}

/// `x` for a setting that is on, a space otherwise.
pub open spec fn checkbox_text(enabled: bool) -> Seq<char> {
    if enabled { "x"@ } else { " "@ }
}

/// `x` for a setting that is on, a space otherwise.
pub fn checkbox(enabled: bool) -> (t: &'static str)
    ensures
        t@ == checkbox_text(enabled),
{
    if enabled { "x" } else { " " }
}

/// `on` or `off`.
pub open spec fn toggle_text(enabled: bool) -> Seq<char> {
    if enabled { "on"@ } else { "off"@ }
}

/// `on` or `off`.
pub fn toggle_label(enabled: bool) -> (t: &'static str)
    ensures
        t@ == toggle_text(enabled),
{
    if enabled { "on" } else { "off" }
}

/// `value` as a whole percentage of `total`, rounded down.
pub fn percentage(value: usize, total: usize) -> (p: usize)
    requires
        total > 0,
        value * 100 <= usize::MAX,
    ensures
        p == (value * 100) / (total as int),
{
    value * 100 / total
}

/// Width of a bar segment: its share of `width`, rounded down, but at least one
/// character for a non-empty category.
pub open spec fn segment_width_of(value: nat, total: nat, width: nat) -> nat {
    if value == 0 {
        0
    } else {
        let w = width * value / total;
        if w >= 1 { w } else { 1 }
    }
}

/// Width of a bar segment: its share of `width`, rounded down, but at least one
/// character for a non-empty category.
pub fn segment_width(value: usize, total: usize, width: usize) -> (w: usize)
    requires
        total > 0,
        width * value <= usize::MAX,
    ensures
        w == segment_width_of(value as nat, total as nat, width as nat),
{
    if value == 0 {
        0
    } else {
        let w = width * value / total;
        if w >= 1 { w } else { 1 }
    }
}

/// `w * v / t <= w` when `v <= t`.
proof fn lemma_share_le(v: nat, t: nat, w: nat)
    requires
        0 < t,
        v <= t,
    ensures
        w * v / t <= w,
{
    assert(w * v <= w * t) by (nonlinear_arith)
        requires
            v <= t,
    ;
    assert(w * v / t <= w * t / t) by (nonlinear_arith)
        requires
            w * v <= w * t,
            0 < t,
    ;
    assert(w * t / t == w) by (nonlinear_arith)
        requires
            0 < t,
    ;
}

/// The total that a composition bar divides by: the sum of its parts, at least one.
pub open spec fn bar_total(code: nat, comments: nat, documents: nat, blanks: nat) -> nat {
    let sum = code + comments + documents + blanks;
    if sum >= 1 { sum } else { 1 }
}

/// A composition bar `width` characters wide: `#` for code, `=` for comments, `+` for
/// documents, and `.` for blank lines filling what is left.
pub open spec fn segment_bar_line(code: nat, comments: nat, documents: nat, blanks: nat, width: nat) -> Seq<(Seq<char>, TextStyle)> {
    let total = bar_total(code, comments, documents, blanks);
    let cw = segment_width_of(code, total, width);
    let mw = segment_width_of(comments, total, width);
    let dw = segment_width_of(documents, total, width);
    let used = cw + mw + dw;
    let bw: nat = if width > used { (width - used) as nat } else { 0 };
    seq![
        (repeated('#', cw), fg(Tone::Code)),
        (repeated('=', mw), fg(Tone::Comments)),
        (repeated('+', dw), fg(Tone::Docs)),
        (repeated('.', bw), fg(Tone::Muted)),
    ]
}

/// The four parts of a bar fit in `usize`, and so does each part times `width`.
pub open spec fn bar_fits(code: nat, comments: nat, documents: nat, blanks: nat, width: nat) -> bool {
    &&& code + comments + documents + blanks <= usize::MAX
    &&& width * code <= usize::MAX
    &&& width * comments <= usize::MAX
    &&& width * documents <= usize::MAX
    &&& 1 <= width <= 1024
}

/// A composition bar `width` characters wide.
pub fn segment_bar(code: usize, comments: usize, documents: usize, blanks: usize, width: usize) -> (line: TextLine)
    requires
        bar_fits(code as nat, comments as nat, documents as nat, blanks as nat, width as nat),
    ensures
        line_view(line) == segment_bar_line(code as nat, comments as nat, documents as nat, blanks as nat, width as nat),
{
    let sum = code + comments + documents + blanks;
    let total = if sum >= 1 { sum } else { 1 };
    proof {
        if code > 0 { lemma_share_le(code as nat, total as nat, width as nat); }
        if comments > 0 { lemma_share_le(comments as nat, total as nat, width as nat); }
        if documents > 0 { lemma_share_le(documents as nat, total as nat, width as nat); }
    }
    let code_width = segment_width(code, total, width);
    let comments_width = segment_width(comments, total, width);
    let documents_width = segment_width(documents, total, width);
    let used_width = code_width + comments_width + documents_width;
    let blanks_width = if width > used_width { width - used_width } else { 0 };
    let mut spans: Vec<TextSpan> = Vec::new();
    spans.push(span(repeat_char('#', code_width), fg_style(Tone::Code)));
    spans.push(span(repeat_char('=', comments_width), fg_style(Tone::Comments)));
    spans.push(span(repeat_char('+', documents_width), fg_style(Tone::Docs)));
    spans.push(span(repeat_char('.', blanks_width), fg_style(Tone::Muted)));
    let line = line_of(spans);
    assert(line_view(line) =~= segment_bar_line(code as nat, comments as nat, documents as nat, blanks as nat, width as nat));
    line
}

/// The style of a key in the footer.
pub open spec fn key_style() -> TextStyle {
    TextStyle { fg: Some(Tone::KeyText), bg: Some(Tone::KeyBackground) }
}

/// A key in the footer, in brackets.
pub open spec fn key_chip_span(label: Seq<char>) -> (Seq<char>, TextStyle) {
    ("["@ + label + "]"@, key_style())
}

/// A key in the footer, in brackets.
pub fn key_chip(label: &str) -> (chip: TextSpan)
    ensures
        span_view(chip) == key_chip_span(label@),
{
    let mut text = String::new();
    push_all(&mut text, "[");
    push_all(&mut text, label);
    push_all(&mut text, "]");
    assert(text@ =~= "["@ + label@ + "]"@);
    span(text, TextStyle { fg: Some(Tone::KeyText), bg: Some(Tone::KeyBackground) })
}

/// The key bindings the footer shows: those of the filter while it is edited, else
/// those of the current view.
pub open spec fn footer_spans(m: AppModel) -> Seq<(Seq<char>, TextStyle)> {
    if m.editing_filter {
        seq![
            ("type filter | "@, plain()),
            key_chip_span("Backspace"@),
            (" delete | "@, plain()),
            key_chip_span("Enter"@),
            (" apply | "@, plain()),
            key_chip_span("Esc"@),
            (" done"@, plain()),
        ]
    } else {
        match m.view {
            AppView::Explorer => seq![
                key_chip_span("Up/Down"@),
                (" select | "@, plain()),
                key_chip_span("/"@),
                (" filter | "@, plain()),
                key_chip_span("Tab"@),
                (" view | "@, plain()),
                key_chip_span("q"@),
                (" quit"@, plain()),
            ],
            AppView::Report => seq![
                key_chip_span("Left/Right"@),
                (" format | "@, plain()),
                key_chip_span("Space"@),
                (" toggle | "@, plain()),
                key_chip_span("e"@),
                (" export | "@, plain()),
                key_chip_span("q"@),
                (" quit"@, plain()),
            ],
            AppView::Dashboard => seq![
                key_chip_span("Tab"@),
                (" panes | "@, plain()),
                key_chip_span("r"@),
                (" rescan | "@, plain()),
                key_chip_span("q"@),
                (" quit"@, plain()),
            ],
        }
    }
}

/// The footer line with the key bindings.
pub fn footer_line(state: &AppState) -> (line: TextLine)
    ensures
        line_view(line) == footer_spans(state@),
{
    let mut spans: Vec<TextSpan> = Vec::new();
    if state.is_editing_language_filter() {
        spans.push(span_str("type filter | ", plain_style()));
        spans.push(key_chip("Backspace"));
        spans.push(span_str(" delete | ", plain_style()));
        spans.push(key_chip("Enter"));
        spans.push(span_str(" apply | ", plain_style()));
        spans.push(key_chip("Esc"));
        spans.push(span_str(" done", plain_style()));
    } else {
        match state.current_view() {
            AppView::Explorer => {
                spans.push(key_chip("Up/Down"));
                spans.push(span_str(" select | ", plain_style()));
                spans.push(key_chip("/"));
                spans.push(span_str(" filter | ", plain_style()));
                spans.push(key_chip("Tab"));
                spans.push(span_str(" view | ", plain_style()));
                spans.push(key_chip("q"));
                spans.push(span_str(" quit", plain_style()));
            },
            AppView::Report => {
                spans.push(key_chip("Left/Right"));
                spans.push(span_str(" format | ", plain_style()));
                spans.push(key_chip("Space"));
                spans.push(span_str(" toggle | ", plain_style()));
                spans.push(key_chip("e"));
                spans.push(span_str(" export | ", plain_style()));
                spans.push(key_chip("q"));
                spans.push(span_str(" quit", plain_style()));
            },
            AppView::Dashboard => {
                spans.push(key_chip("Tab"));
                spans.push(span_str(" panes | ", plain_style()));
                spans.push(key_chip("r"));
                spans.push(span_str(" rescan | ", plain_style()));
                spans.push(key_chip("q"));
                spans.push(span_str(" quit", plain_style()));
            },
        }
    }
    let line = line_of(spans);
    assert(line_view(line) =~= footer_spans(state@));
    line
}

/// The header: the command, the scanned root, and the status.
pub open spec fn header_spans(m: AppModel) -> Seq<(Seq<char>, TextStyle)> {
    seq![
        (command_label_text(m.view), fg(Tone::Brand)),
        ("  "@, plain()),
        (m.report.summary.root@, fg(Tone::Muted)),
        ("  "@, plain()),
        (status_label_text(m.view), fg(Tone::Muted)),
    ]
}

/// The header line.
pub fn header_line(state: &AppState) -> (line: TextLine)
    ensures
        line_view(line) == header_spans(state@),
{
    let mut spans: Vec<TextSpan> = Vec::new();
    spans.push(span_str(command_label(state), fg_style(Tone::Brand)));
    spans.push(span_str("  ", plain_style()));
    spans.push(span(state.report().summary.root.clone(), fg_style(Tone::Muted)));
    spans.push(span_str("  ", plain_style()));
    spans.push(span_str(status_label(state), fg_style(Tone::Muted)));
    let line = line_of(spans);
    assert(line_view(line) =~= header_spans(state@));
    line
}

/// `prefix` followed by `middle` and `suffix`.
fn concat3(prefix: &str, middle: &str, suffix: &str) -> (s: String)
    ensures
        s@ == prefix@ + middle@ + suffix@,
{
    let mut s = String::new();
    push_all(&mut s, prefix);
    push_all(&mut s, middle);
    push_all(&mut s, suffix);
    assert(s@ =~= prefix@ + middle@ + suffix@);
    s
}

/// The report-section checklist of the report view.
pub open spec fn report_control_text(m: AppModel) -> Seq<Seq<(Seq<char>, TextStyle)>> {
    seq![
        seq![("Report sections"@, fg(Tone::Accent))],
        text_line("[x] Summary"@),
        text_line("["@ + checkbox_text(m.include_languages) + "] Languages"@),
        text_line("[x] Documentation ratio"@),
        text_line("["@ + checkbox_text(m.include_files) + "] Per-file table"@),
        text_line("[ ] Save history snapshot"@),
    ]
}

/// The report-section checklist of the report view.
pub fn report_control_lines(state: &AppState) -> (lines: Vec<TextLine>)
    ensures
        lines_view(lines@) == report_control_text(state@),
{
    let mut lines: Vec<TextLine> = Vec::new();
    let mut first: Vec<TextSpan> = Vec::new();
    first.push(span_str("Report sections", fg_style(Tone::Accent)));
    let l0 = line_of(first);
    assert(line_view(l0) =~= seq![("Report sections"@, fg(Tone::Accent))]);
    lines.push(l0);
    lines.push(plain_line_str("[x] Summary"));
    lines.push(plain_line(concat3("[", checkbox(state.includes_language_details()), "] Languages")));
    lines.push(plain_line_str("[x] Documentation ratio"));
    lines.push(plain_line(concat3("[", checkbox(state.includes_file_details()), "] Per-file table")));
    lines.push(plain_line_str("[ ] Save history snapshot"));
    assert(lines_view(lines@) =~= report_control_text(state@));
    lines
}

/// `name` is one plain path component on every platform: not empty, not `.` or `..`,
/// and without `/`, `\` or `:`, so that no platform reads a root, a prefix or a
/// separator in it.
pub open spec fn plain_component(name: Seq<char>) -> bool {
    &&& name.len() > 0
    &&& name != seq!['.']
    &&& name != seq!['.', '.']
    &&& forall|i: int| 0 <= i < name.len() ==> name[i] != '/' && name[i] != '\\' && name[i] != ':'
}

/// `out` is `base` extended by `name`: `base`, then at most one separator (`/` or
/// `\`), then `name`.
pub open spec fn joined(base: Seq<char>, name: Seq<char>, out: Seq<char>) -> bool {
    ||| out == base + name
    ||| out == base + seq!['/'] + name
    ||| out == base + seq!['\\'] + name
}

/// `root` joined with `name`, as `Path::join` joins them. Its documentation (through
/// `PathBuf::push`) says that a relative path extends the path it is pushed onto, a
/// separator being added where needed. So for a `name` that is one plain component, and
/// a `root` without `\` (which rules out the Windows verbatim prefix `\\?\`, the one
/// case where pushing rewrites the root), the result is `root`, perhaps a separator,
/// and `name`. Which separator, and whether one is added, depends on the platform and
/// is not stated; nor is anything stated for other roots.
#[verifier::external_body]
pub(crate) fn join_path(root: &str, name: &str) -> (out: String)
    ensures
        plain_component(name@) && crate::report::slash_separated(root@) ==> joined(root@, name@, out@),
{
    std::path::Path::new(root).join(name).to_string_lossy().into_owned()
}

/// The name of the export file of a format.
pub open spec fn report_file_name_text(format: ReportFormat) -> Seq<char> {
    "code-count-report."@ + crate::report::extension_of(format)
}

/// The name of the export file of a format: `code-count-report.` and its extension.
pub fn report_file_name(format: ReportFormat) -> (name: String)
    ensures
        name@ == report_file_name_text(format),
{
    let mut name = String::new();
    push_all(&mut name, "code-count-report.");
    push_all(&mut name, crate::report::report_extension(format));
    name
}

/// The export file name of every format is one plain path component.
proof fn lemma_report_file_name_plain(format: ReportFormat)
    ensures
        plain_component(report_file_name_text(format)),
{
    reveal_strlit("code-count-report.");
    reveal_strlit("json");
    reveal_strlit("md");
    reveal_strlit("html");
    reveal_strlit("csv");
    let name = report_file_name_text(format);
    let prefix = "code-count-report."@;
    let ext = crate::report::extension_of(format);
    assert(name.len() > 2);
    assert forall|i: int| 0 <= i < name.len() implies name[i] != '/' && name[i] != '\\' && name[i] != ':' by {
        if i < prefix.len() {
            assert(name[i] == prefix[i]);
        } else {
            assert(name[i] == ext[i - prefix.len()]);
        }
    }
}

/// The path the report view exports to: the export file of the current format in the
/// scanned root; for a root without `\`, that is the root, perhaps a separator, and the
/// file name.
pub fn report_output_path(state: &AppState) -> (path: String)
    ensures
        crate::report::slash_separated(state@.report.summary.root@) ==> joined(
            state@.report.summary.root@,
            report_file_name_text(state@.format),
            path@,
        ),
{
    let name = report_file_name(state.report_format());
    proof {
        lemma_report_file_name_plain(state@.format);
    }
    join_path(state.report().summary.root.as_str(), name.as_str())
}

/// The format, target and detail settings of the report view, and the last export's
/// outcome.
pub open spec fn report_export_text(m: AppModel, target: Seq<char>) -> Seq<Seq<(Seq<char>, TextStyle)>> {
    let first = seq![
        seq![
            ("Format"@, fg(Tone::Muted)),
            (" "@, plain()),
            (format_label_text(m.format), fg(Tone::Code)),
            ("   "@, plain()),
            ("Target"@, fg(Tone::Muted)),
            (" "@, plain()),
            (target, fg(Tone::Title)),
        ],
        text_line("Language details "@ + toggle_text(m.include_languages) + "   File details "@ + toggle_text(m.include_files)),
    ];
    match m.status {
        Some(s) => first.push(text_line(s)),
        None => first,
    }
}

/// The export panel, with `target` as the export path.
pub fn report_export_lines_to(state: &AppState, target: &str) -> (lines: Vec<TextLine>)
    ensures
        lines_view(lines@) == report_export_text(state@, target@),
{
    let mut lines: Vec<TextLine> = Vec::new();
    let mut spans: Vec<TextSpan> = Vec::new();
    spans.push(span_str("Format", fg_style(Tone::Muted)));
    spans.push(span_str(" ", plain_style()));
    spans.push(span_str(report_format_label(state.report_format()), fg_style(Tone::Code)));
    spans.push(span_str("   ", plain_style()));
    spans.push(span_str("Target", fg_style(Tone::Muted)));
    spans.push(span_str(" ", plain_style()));
    spans.push(span_str(target, fg_style(Tone::Title)));
    let l0 = line_of(spans);
    let ghost expected = report_export_text(state@, target@);
    assert(line_view(l0) =~= expected[0]);
    lines.push(l0);
    let mut second = String::new();
    push_all(&mut second, "Language details ");
    push_all(&mut second, toggle_label(state.includes_language_details()));
    push_all(&mut second, "   File details ");
    push_all(&mut second, toggle_label(state.includes_file_details()));
    assert(second@ =~= "Language details "@ + toggle_text(state@.include_languages) + "   File details "@
        + toggle_text(state@.include_files));
    let l1 = plain_line(second);
    assert(line_view(l1) =~= expected[1]);
    lines.push(l1);
    match state.report_status() {
        Some(status) => {
            let l2 = plain_line_str(status);
            lines.push(l2);
            assert(lines_view(lines@) =~= expected);
        },
        None => {
            assert(lines_view(lines@) =~= expected);
        },
    }
    lines
}

/// The export panel, with the export path that `report_output_path` gives.
pub fn report_export_lines(state: &AppState) -> (lines: Vec<TextLine>)
    ensures
        exists|target: Seq<char>|
            (crate::report::slash_separated(state@.report.summary.root@) ==> joined(
                state@.report.summary.root@,
                report_file_name_text(state@.format),
                target,
            )) && lines_view(lines@)
                == report_export_text(state@, target),
{
    let target = report_output_path(state);
    report_export_lines_to(state, target.as_str())
}

/// A line `label value`, unstyled.
pub open spec fn labeled_number(label: Seq<char>, value: usize) -> Seq<(Seq<char>, TextStyle)> {
    text_line(label + decimal(value as nat))
}

fn labeled_number_line(label: &str, value: usize) -> (line: TextLine)
    ensures
        line_view(line) == labeled_number(label@, value),
{
    let mut text = String::new();
    push_all(&mut text, label);
    push_decimal(&mut text, value);
    assert(text@ =~= label@ + decimal(value as nat));
    plain_line(text)
}

/// `prefix` followed by a number, styled.
fn number_span(prefix: &str, value: usize, style: TextStyle) -> (sp: TextSpan)
    ensures
        span_view(sp) == (prefix@ + decimal(value as nat), style),
{
    let mut text = String::new();
    push_all(&mut text, prefix);
    push_decimal(&mut text, value);
    assert(text@ =~= prefix@ + decimal(value as nat));
    span(text, style)
}

/// The categories of a report fit a 64-character bar.
pub open spec fn stats_fit(r: ScanReport) -> bool {
    bar_fits(r.categories.code as nat, r.categories.comments as nat, r.categories.documents as nat, r.categories.blanks as nat, 64)
}

/// The dashboard's summary panel: totals, a composition bar, and the four counts.
pub open spec fn stats_text(m: AppModel) -> Seq<Seq<(Seq<char>, TextStyle)>> {
    let s = m.report.summary;
    let c = m.report.categories;
    seq![
        seq![
            ("Total"@, fg(Tone::Muted)),
            (" "@, plain()),
            (decimal(s.total_lines as nat), fg(Tone::Code)),
            ("   "@, plain()),
            ("Files"@, fg(Tone::Muted)),
            (" "@, plain()),
            (decimal(s.files as nat), fg(Tone::Title)),
        ],
        segment_bar_line(c.code as nat, c.comments as nat, c.documents as nat, c.blanks as nat, 64),
        seq![
            ("code"@, fg(Tone::Code)),
            (" "@ + decimal(s.code_lines as nat), plain()),
            ("   "@, plain()),
            ("comments"@, fg(Tone::Comments)),
            (" "@ + decimal(s.comment_lines as nat), plain()),
        ],
        seq![
            ("docs"@, fg(Tone::Docs)),
            (" "@ + decimal(s.document_lines as nat), plain()),
            ("   "@, plain()),
            ("blank"@, fg(Tone::Muted)),
            (" "@ + decimal(s.blank_lines as nat), plain()),
        ],
    ]
}

/// The dashboard's summary panel.
pub fn stats_lines(state: &AppState) -> (lines: Vec<TextLine>)
    requires
        stats_fit(state@.report),
    ensures
        lines_view(lines@) == stats_text(state@),
{
    let summary = &state.report().summary;
    let categories = &state.report().categories;
    let ghost expected = stats_text(state@);
    let mut lines: Vec<TextLine> = Vec::new();
    let mut first: Vec<TextSpan> = Vec::new();
    first.push(span_str("Total", fg_style(Tone::Muted)));
    first.push(span_str(" ", plain_style()));
    first.push(span(decimal_string(summary.total_lines), fg_style(Tone::Code)));
    first.push(span_str("   ", plain_style()));
    first.push(span_str("Files", fg_style(Tone::Muted)));
    first.push(span_str(" ", plain_style()));
    first.push(span(decimal_string(summary.files), fg_style(Tone::Title)));
    let l0 = line_of(first);
    assert(line_view(l0) =~= expected[0]);
    lines.push(l0);
    lines.push(segment_bar(categories.code, categories.comments, categories.documents, categories.blanks, 64));
    let mut third: Vec<TextSpan> = Vec::new();
    third.push(span_str("code", fg_style(Tone::Code)));
    third.push(number_span(" ", summary.code_lines, plain_style()));
    third.push(span_str("   ", plain_style()));
    third.push(span_str("comments", fg_style(Tone::Comments)));
    third.push(number_span(" ", summary.comment_lines, plain_style()));
    let l2 = line_of(third);
    assert(line_view(l2) =~= expected[2]);
    lines.push(l2);
    let mut fourth: Vec<TextSpan> = Vec::new();
    fourth.push(span_str("docs", fg_style(Tone::Docs)));
    fourth.push(number_span(" ", summary.document_lines, plain_style()));
    fourth.push(span_str("   ", plain_style()));
    fourth.push(span_str("blank", fg_style(Tone::Muted)));
    fourth.push(number_span(" ", summary.blank_lines, plain_style()));
    let l3 = line_of(fourth);
    assert(line_view(l3) =~= expected[3]);
    lines.push(l3);
    assert(lines_view(lines@) =~= expected);
    lines
}

/// Whole percentage of `value` in `total`, rounded down.
pub open spec fn percent_of(value: nat, total: nat) -> nat {
    value * 100 / total
}

/// Characters of a 20-character row that a category fills: its share, at least one
/// for a category with lines.
pub open spec fn filled_of(value: nat, total: nat) -> nat {
    let f = percent_of(value, total) * 20 / 100;
    if value > 0 && f < 1 { 1 } else { f }
}

/// A row of the composition panel: label, a 20-character bar and the percentage.
pub open spec fn composition_row_spans(label: Seq<char>, value: nat, total: nat, tone: Tone, fill: char) -> Seq<(Seq<char>, TextStyle)> {
    let percent = percent_of(value, total);
    let filled = filled_of(value, total);
    let empty: nat = if 20 > filled { (20 - filled) as nat } else { 0 };
    seq![
        (pad_right(label, 9), fg(tone)),
        (repeated(fill, filled), fg(tone)),
        (repeated('-', empty), fg(Tone::Muted)),
        (" "@, plain()),
        (pad_left(decimal(percent), 3) + "%"@, fg(tone)),
    ]
}

/// The arithmetic of a composition row stays within `usize`.
pub open spec fn row_fits(value: nat, total: nat) -> bool {
    &&& total > 0
    &&& value * 100 <= usize::MAX
    &&& percent_of(value, total) * 20 <= usize::MAX
}

/// A row of the composition panel.
pub fn composition_row(label: &str, value: usize, total: usize, tone: Tone, fill: char) -> (line: TextLine)
    requires
        row_fits(value as nat, total as nat),
    ensures
        line_view(line) == composition_row_spans(label@, value as nat, total as nat, tone, fill),
{
    let percent = percentage(value, total);
    let share = percent * 20 / 100;
    let filled = if value > 0 && share < 1 { 1 } else { share };
    let empty = if 20 > filled { 20 - filled } else { 0 };
    let mut spans: Vec<TextSpan> = Vec::new();
    let mut first = String::new();
    push_padded_right(&mut first, label, 9);
    assert(first@ =~= pad_right(label@, 9));
    spans.push(span(first, fg_style(tone)));
    spans.push(span(repeat_char(fill, filled), fg_style(tone)));
    spans.push(span(repeat_char('-', empty), fg_style(Tone::Muted)));
    spans.push(span_str(" ", plain_style()));
    let mut last = String::new();
    let digits = decimal_string(percent);
    push_padded_left(&mut last, digits.as_str(), 3);
    push_all(&mut last, "%");
    assert(last@ =~= pad_left(decimal(percent as nat), 3) + "%"@);
    spans.push(span(last, fg_style(tone)));
    let line = line_of(spans);
    assert(line_view(line) =~= composition_row_spans(label@, value as nat, total as nat, tone, fill));
    line
}

/// What a composition row is divided by: the total lines, at least one.
pub open spec fn composition_total(r: ScanReport) -> nat {
    if r.summary.total_lines >= 1 { r.summary.total_lines as nat } else { 1 }
}

/// The rows of the composition panel fit `usize`.
pub open spec fn composition_fits(r: ScanReport) -> bool {
    let t = composition_total(r);
    &&& row_fits(r.categories.code as nat, t)
    &&& row_fits(r.categories.comments as nat, t)
    &&& row_fits(r.categories.documents as nat, t)
    &&& row_fits(r.categories.blanks as nat, t)
}

/// The dashboard's composition panel: one row per line category.
pub open spec fn composition_text(m: AppModel) -> Seq<Seq<(Seq<char>, TextStyle)>> {
    let c = m.report.categories;
    let t = composition_total(m.report);
    seq![
        composition_row_spans("Code"@, c.code as nat, t, Tone::Code, '#'),
        composition_row_spans("Comments"@, c.comments as nat, t, Tone::Comments, '='),
        composition_row_spans("Docs"@, c.documents as nat, t, Tone::Docs, '+'),
        composition_row_spans("Blank"@, c.blanks as nat, t, Tone::Muted, '.'),
    ]
}

/// The dashboard's composition panel.
pub fn composition_lines(state: &AppState) -> (lines: Vec<TextLine>)
    requires
        composition_fits(state@.report),
    ensures
        lines_view(lines@) == composition_text(state@),
{
    let categories = &state.report().categories;
    let total_lines = state.report().summary.total_lines;
    let total = if total_lines >= 1 { total_lines } else { 1 };
    let mut lines: Vec<TextLine> = Vec::new();
    lines.push(composition_row("Code", categories.code, total, Tone::Code, '#'));
    lines.push(composition_row("Comments", categories.comments, total, Tone::Comments, '='));
    lines.push(composition_row("Docs", categories.documents, total, Tone::Docs, '+'));
    lines.push(composition_row("Blank", categories.blanks, total, Tone::Muted, '.'));
    assert(lines_view(lines@) =~= composition_text(state@));
    lines
}

/// The lines a language shows in lists: its document lines for documents, else its
/// code lines.
pub open spec fn visible_lines(l: LanguageStat) -> usize {
    if l.is_document { l.document_lines } else { l.code_lines }
}

/// The lines a language shows in lists.
pub fn language_visible_code(language: &LanguageStat) -> (lines: usize)
    ensures
        lines == visible_lines(*language),
{
    if language.is_document { language.document_lines } else { language.code_lines }
}

/// The category word of a language.
pub open spec fn category_text(l: LanguageStat) -> Seq<char> {
    if l.is_document { "Documents"@ } else { "Code"@ }
}

/// The colour of a language.
pub open spec fn language_tone(l: LanguageStat) -> Tone {
    if l.is_document { Tone::Docs } else { Tone::Code }
}

/// A row of the top-languages panel.
pub open spec fn top_language_spans(l: LanguageStat) -> Seq<(Seq<char>, TextStyle)> {
    seq![
        (pad_right(l.name@, 14), plain()),
        (pad_left(decimal(visible_lines(l) as nat), 8), fg(language_tone(l))),
        ("  "@, plain()),
        (category_text(l), fg(Tone::Muted)),
    ]
}

/// The rows of the first `n` languages.
pub open spec fn top_language_rows(ls: Seq<LanguageStat>, n: int) -> Seq<Seq<(Seq<char>, TextStyle)>>
    decreases n,
{
    if n <= 0 {
        Seq::empty()
    } else {
        top_language_rows(ls, n - 1).push(top_language_spans(ls[n - 1]))
    }
}

/// The dashboard's top-languages panel: the six largest languages, or a note when
/// there are none.
pub open spec fn language_text(m: AppModel) -> Seq<Seq<(Seq<char>, TextStyle)>> {
    let ls = m.report.languages@;
    let n = if ls.len() < 6 { ls.len() as int } else { 6 };
    if n == 0 {
        seq![text_line("No languages found"@)]
    } else {
        top_language_rows(ls, n)
    }
}

fn top_language_line(language: &LanguageStat) -> (line: TextLine)
    ensures
        line_view(line) == top_language_spans(*language),
{
    let mut spans: Vec<TextSpan> = Vec::new();
    let mut name = String::new();
    push_padded_right(&mut name, language.name.as_str(), 14);
    assert(name@ =~= pad_right(language.name@, 14));
    spans.push(span(name, plain_style()));
    let digits = decimal_string(language_visible_code(language));
    let mut count = String::new();
    push_padded_left(&mut count, digits.as_str(), 8);
    assert(count@ =~= pad_left(decimal(visible_lines(*language) as nat), 8));
    let tone = if language.is_document { Tone::Docs } else { Tone::Code };
    spans.push(span(count, fg_style(tone)));
    spans.push(span_str("  ", plain_style()));
    let category = if language.is_document { "Documents" } else { "Code" };
    spans.push(span_str(category, fg_style(Tone::Muted)));
    let line = line_of(spans);
    assert(line_view(line) =~= top_language_spans(*language));
    line
}

/// The dashboard's top-languages panel.
pub fn language_lines(state: &AppState) -> (lines: Vec<TextLine>)
    ensures
        lines_view(lines@) == language_text(state@),
{
    let languages = &state.report().languages;
    let n: usize = if languages.len() < 6 { languages.len() } else { 6 };
    let mut lines: Vec<TextLine> = Vec::new();
    let mut i: usize = 0;
    while i < n
        invariant
            n <= languages@.len(),
            i <= n,
            lines_view(lines@) == top_language_rows(languages@, i as int),
        decreases n - i,
    {
        let line = top_language_line(&languages[i]);
        lines.push(line);
        i = i + 1;
        assert(lines_view(lines@) =~= top_language_rows(languages@, i as int));
    }
    if lines.len() == 0 {
        lines.push(plain_line_str("No languages found"));
        assert(lines_view(lines@) =~= language_text(state@));
    }
    lines
}

/// `style` with foreground `t`.
pub open spec fn with_fg(style: TextStyle, t: Tone) -> TextStyle {
    TextStyle { fg: Some(t), bg: style.bg }
}

/// The style of an explorer row: highlighted when selected.
pub open spec fn row_style(selected: bool) -> TextStyle {
    if selected { TextStyle { fg: None, bg: Some(Tone::Selection) } } else { plain() }
}

/// The explorer row of a language: selection marker, name, share of all lines, and
/// category.
pub open spec fn explorer_row_spans(l: LanguageStat, selected: bool, total: nat) -> Seq<(Seq<char>, TextStyle)> {
    let style = row_style(selected);
    seq![
        (if selected { ">"@ } else { " "@ }, with_fg(style, Tone::Title)),
        (" "@, plain()),
        (pad_right(l.name@, 16), with_fg(style, language_tone(l))),
        (pad_left(decimal(percent_of(l.total_lines as nat, total)), 4) + "%"@, style),
        (" "@, plain()),
        (pad_left(if l.is_document { "doc"@ } else { "code"@ }, 4), with_fg(style, Tone::Muted)),
    ]
}

/// The explorer rows of the first `n` listed languages.
pub open spec fn explorer_rows(ls: Seq<LanguageStat>, selected: nat, total: nat, n: int) -> Seq<Seq<(Seq<char>, TextStyle)>>
    decreases n,
{
    if n <= 0 {
        Seq::empty()
    } else {
        explorer_rows(ls, selected, total, n - 1).push(explorer_row_spans(ls[n - 1], n - 1 == selected, total))
    }
}

/// The filter line of the explorer.
pub open spec fn filter_spans(filter: Seq<char>) -> Seq<(Seq<char>, TextStyle)> {
    if filter.len() == 0 {
        seq![("Filter"@, fg(Tone::Muted)), (":"@, plain())]
    } else {
        seq![("Filter"@, fg(Tone::Muted)), (": "@, plain()), (filter, fg(Tone::Title))]
    }
}

/// The explorer's language list: the filter, a blank line, then a row per listed
/// language, or a note when none is listed.
pub open spec fn explorer_language_text(m: AppModel) -> Seq<Seq<(Seq<char>, TextStyle)>> {
    let shown = m.shown();
    let head = seq![filter_spans(m.filter), text_line(Seq::empty())];
    if shown.len() == 0 {
        head.push(text_line("No languages found"@))
    } else {
        head + explorer_rows(shown, m.selected, composition_total(m.report), shown.len() as int)
    }
}

/// The percentages of the explorer fit `usize`.
pub open spec fn explorer_fits(m: AppModel) -> bool {
    forall|k: int| 0 <= k < m.shown().len() ==> (#[trigger] m.shown()[k]).total_lines * 100 <= usize::MAX
}

fn explorer_row(language: &LanguageStat, selected: bool, total: usize) -> (line: TextLine)
    requires
        total > 0,
        language.total_lines * 100 <= usize::MAX,
    ensures
        line_view(line) == explorer_row_spans(*language, selected, total as nat),
{
    let style = if selected { TextStyle { fg: None, bg: Some(Tone::Selection) } } else { plain_style() };
    let tone = if language.is_document { Tone::Docs } else { Tone::Code };
    let mut spans: Vec<TextSpan> = Vec::new();
    spans.push(span_str(if selected { ">" } else { " " }, TextStyle { fg: Some(Tone::Title), bg: style.bg }));
    spans.push(span_str(" ", plain_style()));
    let mut name = String::new();
    push_padded_right(&mut name, language.name.as_str(), 16);
    assert(name@ =~= pad_right(language.name@, 16));
    spans.push(span(name, TextStyle { fg: Some(tone), bg: style.bg }));
    let percent = percentage(language.total_lines, total);
    let digits = decimal_string(percent);
    let mut share = String::new();
    push_padded_left(&mut share, digits.as_str(), 4);
    push_all(&mut share, "%");
    assert(share@ =~= pad_left(decimal(percent as nat), 4) + "%"@);
    spans.push(span(share, style));
    spans.push(span_str(" ", plain_style()));
    let mut category = String::new();
    push_padded_left(&mut category, if language.is_document { "doc" } else { "code" }, 4);
    spans.push(span(category, TextStyle { fg: Some(Tone::Muted), bg: style.bg }));
    let line = line_of(spans);
    assert(line_view(line) =~= explorer_row_spans(*language, selected, total as nat));
    line
}

/// The explorer's language list.
pub fn explorer_language_lines(state: &AppState) -> (lines: Vec<TextLine>)
    requires
        explorer_fits(state@),
    ensures
        lines_view(lines@) == explorer_language_text(state@),
{
    let ghost m = state@;
    let total_lines = state.report().summary.total_lines;
    let total = if total_lines >= 1 { total_lines } else { 1 };
    let mut lines: Vec<TextLine> = Vec::new();
    let filter = state.language_filter();
    let mut head: Vec<TextSpan> = Vec::new();
    head.push(span_str("Filter", fg_style(Tone::Muted)));
    if filter.is_empty() {
        head.push(span_str(":", plain_style()));
    } else {
        head.push(span_str(": ", plain_style()));
        head.push(span_str(filter, fg_style(Tone::Title)));
    }
    let l0 = line_of(head);
    assert(line_view(l0) =~= filter_spans(m.filter));
    lines.push(l0);
    lines.push(plain_line(String::new()));
    let ghost head_view = lines_view(lines@);
    assert(head_view =~= seq![filter_spans(m.filter), text_line(Seq::empty())]);
    let shown = state.filtered_languages();
    let selected = state.selected_language_index();
    let mut i: usize = 0;
    while i < shown.len()
        invariant
            i <= shown@.len(),
            shown@.len() == m.shown().len(),
            forall|k: int| 0 <= k < shown@.len() ==> *#[trigger] shown@[k] == m.shown()[k],
            explorer_fits(m),
            total == composition_total(m.report),
            selected == m.selected,
            lines_view(lines@) == head_view + explorer_rows(m.shown(), m.selected, total as nat, i as int),
        decreases shown@.len() - i,
    {
        let language = shown[i];
        assert(*language == m.shown()[i as int]);
        let line = explorer_row(language, i == selected, total);
        let ghost before = lines@;
        lines.push(line);
        proof {
            assert(lines@ == before.push(line));
            assert(lines_view(lines@) =~= lines_view(before).push(line_view(line)));
            assert(line_view(line) == explorer_row_spans(m.shown()[i as int], (i as int) == (m.selected as int), total as nat));
            assert(explorer_rows(m.shown(), m.selected, total as nat, i + 1) == explorer_rows(m.shown(), m.selected, total as nat, i as int).push(
                explorer_row_spans(m.shown()[i as int], (i as int) == (m.selected as int), total as nat)));
        }
        i = i + 1;
        assert(lines_view(lines@) =~= head_view + explorer_rows(m.shown(), m.selected, total as nat, i as int));
    }
    if lines.len() == 2 {
        lines.push(plain_line_str("No languages found"));
        assert(lines_view(lines@) =~= explorer_language_text(m));
    } else {
        assert(lines_view(lines@) =~= explorer_language_text(m));
    }
    lines
}

/// A file of the details panel: path, total and code lines.
pub open spec fn file_row_text(f: FileStat, shown: Seq<char>) -> Seq<char> {
    pad_right(shown, 28) + " total "@ + pad_left(decimal(f.total_lines as nat), 5) + " code "@ + pad_left(
        decimal(f.code_lines as nat),
        5,
    )
}

/// A file of the details panel.
pub fn format_file_stat(file_stat: &FileStat, shown: &str) -> (text: String)
    ensures
        text@ == file_row_text(*file_stat, shown@),
{
    let mut text = String::new();
    push_padded_right(&mut text, shown, 28);
    push_all(&mut text, " total ");
    let total = decimal_string(file_stat.total_lines);
    push_padded_left(&mut text, total.as_str(), 5);
    push_all(&mut text, " code ");
    let code = decimal_string(file_stat.code_lines);
    push_padded_left(&mut text, code.as_str(), 5);
    assert(text@ =~= file_row_text(*file_stat, shown@));
    text
}

/// The rows of the first `n` files.
pub open spec fn file_rows(files: Seq<FileStat>, shown: Seq<Seq<char>>, n: int) -> Seq<Seq<(Seq<char>, TextStyle)>>
    decreases n,
{
    if n <= 0 {
        Seq::empty()
    } else {
        file_rows(files, shown, n - 1).push(text_line(file_row_text(files[n - 1], shown[n - 1])))
    }
}

/// The largest files of a language: at most eight, then how many more there are, or a
/// note when there are none.
pub open spec fn file_detail_text(l: LanguageStat, shown: Seq<Seq<char>>) -> Seq<Seq<(Seq<char>, TextStyle)>> {
    let n = l.file_stats@.len();
    let listed = if n < 8 { n as int } else { 8 };
    let rows = file_rows(l.file_stats@, shown, listed);
    if n == 0 {
        seq![text_line("No files found"@)]
    } else if n > 8 {
        rows.push(text_line("... "@ + decimal((n - 8) as nat) + " more files"@))
    } else {
        rows
    }
}

/// The largest files of a language, with `shown` as the display paths of its files.
pub fn file_detail_lines(language: &LanguageStat, shown: &Vec<String>) -> (lines: Vec<TextLine>)
    requires
        shown@.len() == language.file_stats@.len(),
    ensures
        lines_view(lines@) == file_detail_text(*language, shown.deep_view()),
{
    let ghost dv = shown.deep_view();
    let n = language.file_stats.len();
    let listed: usize = if n < 8 { n } else { 8 };
    let mut lines: Vec<TextLine> = Vec::new();
    let mut j: usize = 0;
    while j < listed
        invariant
            listed <= n,
            n == language.file_stats@.len(),
            shown@.len() == n,
            dv == shown.deep_view(),
            j <= listed,
            lines_view(lines@) == file_rows(language.file_stats@, dv, j as int),
        decreases listed - j,
    {
        let text = format_file_stat(&language.file_stats[j], shown[j].as_str());
        assert(dv[j as int] == shown@[j as int]@);
        lines.push(plain_line(text));
        j = j + 1;
        assert(lines_view(lines@) =~= file_rows(language.file_stats@, dv, j as int));
    }
    let remaining: usize = if n > 8 { n - 8 } else { 0 };
    if remaining > 0 {
        let mut text = String::new();
        push_all(&mut text, "... ");
        push_decimal(&mut text, remaining);
        push_all(&mut text, " more files");
        lines.push(plain_line(text));
    }
    if lines.len() == 0 {
        lines.push(plain_line_str("No files found"));
    }
    assert(lines_view(lines@) =~= file_detail_text(*language, dv));
    lines
}

/// The selected language's counts fit a 36-character bar.
pub open spec fn details_fit(m: AppModel) -> bool {
    match m.selected_language() {
        Some(l) => bar_fits(l.code_lines as nat, l.comment_lines as nat, l.document_lines as nat, l.blank_lines as nat, 36),
        None => true,
    }
}

/// The explorer's details of the selected language: name, composition bar, counts,
/// then its largest files; or a note when no language is listed.
pub open spec fn explorer_detail_text(m: AppModel, shown: Seq<Seq<char>>) -> Seq<Seq<(Seq<char>, TextStyle)>> {
    match m.selected_language() {
        None => seq![text_line("No language selected"@), text_line("Clear the filter to show all languages."@)],
        Some(l) => seq![
            seq![(l.name@, fg(language_tone(l)))],
            segment_bar_line(l.code_lines as nat, l.comment_lines as nat, l.document_lines as nat, l.blank_lines as nat, 36),
            text_line(Seq::empty()),
            text_line("Category "@ + category_text(l)),
            labeled_number("Files "@, l.files),
            labeled_number("Total "@, l.total_lines),
            labeled_number("Code "@, l.code_lines),
            labeled_number("Comments "@, l.comment_lines),
            labeled_number("Documents "@, l.document_lines),
            labeled_number("Blank "@, l.blank_lines),
            text_line(Seq::empty()),
            seq![("Largest files"@, fg(Tone::Muted))],
        ] + file_detail_text(l, shown),
    }
}

/// The explorer's details, with `shown` as the display paths of the selected
/// language's files.
pub fn explorer_detail_lines_with_paths(state: &AppState, shown: &Vec<String>) -> (lines: Vec<TextLine>)
    requires
        details_fit(state@),
        state@.selected_language() matches Some(l) ==> shown@.len() == l.file_stats@.len(),
    ensures
        lines_view(lines@) == explorer_detail_text(state@, shown.deep_view()),
{
    let ghost m = state@;
    let language = match state.selected_language() {
        None => {
            let mut lines: Vec<TextLine> = Vec::new();
            lines.push(plain_line_str("No language selected"));
            lines.push(plain_line_str("Clear the filter to show all languages."));
            assert(lines_view(lines@) =~= explorer_detail_text(m, shown.deep_view()));
            return lines;
        },
        Some(l) => l,
    };
    let tone = if language.is_document { Tone::Docs } else { Tone::Code };
    let mut lines: Vec<TextLine> = Vec::new();
    let mut name: Vec<TextSpan> = Vec::new();
    name.push(span(language.name.clone(), fg_style(tone)));
    let l0 = line_of(name);
    assert(line_view(l0) =~= seq![(language.name@, fg(language_tone(*language)))]);
    lines.push(l0);
    lines.push(segment_bar(language.code_lines, language.comment_lines, language.document_lines, language.blank_lines, 36));
    lines.push(plain_line(String::new()));
    let mut category = String::new();
    push_all(&mut category, "Category ");
    push_all(&mut category, if language.is_document { "Documents" } else { "Code" });
    lines.push(plain_line(category));
    lines.push(labeled_number_line("Files ", language.files));
    lines.push(labeled_number_line("Total ", language.total_lines));
    lines.push(labeled_number_line("Code ", language.code_lines));
    lines.push(labeled_number_line("Comments ", language.comment_lines));
    lines.push(labeled_number_line("Documents ", language.document_lines));
    lines.push(labeled_number_line("Blank ", language.blank_lines));
    lines.push(plain_line(String::new()));
    let mut largest: Vec<TextSpan> = Vec::new();
    largest.push(span_str("Largest files", fg_style(Tone::Muted)));
    let l11 = line_of(largest);
    assert(line_view(l11) =~= seq![("Largest files"@, fg(Tone::Muted))]);
    lines.push(l11);
    let ghost head = lines_view(lines@);
    let mut files = file_detail_lines(language, shown);
    lines.append(&mut files);
    assert(lines_view(lines@) =~= explorer_detail_text(m, shown.deep_view()));
    lines
}

/// `shown` shows the paths of the files of the selected language, if any, as
/// `display_path` does.
pub open spec fn detail_paths_show(m: AppModel, shown: Seq<Seq<char>>) -> bool {
    match m.selected_language() {
        Some(l) => {
            &&& shown.len() == l.file_stats@.len()
            &&& forall|j: int|
                0 <= j < shown.len() ==> crate::report::shows_path(
                    #[trigger] shown[j],
                    l.file_stats@[j].path@,
                    m.report.summary.root@,
                )
        },
        None => true,
    }
}

/// The explorer's details of the selected language, its files shown as `display_path`
/// shows them.
pub fn explorer_detail_lines(state: &AppState) -> (lines: Vec<TextLine>)
    requires
        details_fit(state@),
    ensures
        exists|shown: Seq<Seq<char>>| detail_paths_show(state@, shown) && lines_view(lines@) == explorer_detail_text(state@, shown),
{
    let mut shown: Vec<String> = Vec::new();
    match state.selected_language() {
        Some(language) => {
            let mut j: usize = 0;
            while j < language.file_stats.len()
                invariant
                    j <= language.file_stats@.len(),
                    shown@.len() == j,
                    forall|q: int|
                        0 <= q < j ==> crate::report::shows_path(
                            (#[trigger] shown@[q])@,
                            language.file_stats@[q].path@,
                            state@.report.summary.root@,
                        ),
                decreases language.file_stats@.len() - j,
            {
                shown.push(crate::report::display_path(language.file_stats[j].path.as_str(), state.report().summary.root.as_str()));
                j = j + 1;
            }
            proof {
                let dv = shown.deep_view();
                assert forall|q: int| 0 <= q < dv.len() implies crate::report::shows_path(
                    #[trigger] dv[q],
                    language.file_stats@[q].path@,
                    state@.report.summary.root@,
                ) by {
                    assert(dv[q] == shown@[q]@);
                }
                assert(detail_paths_show(state@, dv));
            }
        },
        None => {},
    }
    explorer_detail_lines_with_paths(state, &shown)
}

/// Files of all languages together.
pub open spec fn file_count(ls: Seq<LanguageStat>) -> nat {
    sum_of(ls, |l: LanguageStat| l.file_stats@.len())
}

/// The preview of the report view: the summary list that the export begins with, the
/// export target, and which details the export holds; then the last export's outcome.
pub open spec fn report_preview_text(m: AppModel, target: Seq<char>) -> Seq<Seq<(Seq<char>, TextStyle)>> {
    let s = m.report.summary;
    let body = seq![
        seq![("# Project Line Report"@, fg(Tone::Title))],
        text_line("- Root: "@ + s.root@),
        text_line("Target "@ + target),
        text_line(Seq::empty()),
        labeled_number("- Files: "@, s.files),
        labeled_number("- Total lines: "@, s.total_lines),
        labeled_number("- Code lines: "@, s.code_lines),
        labeled_number("- Comment lines: "@, s.comment_lines),
        labeled_number("- Document lines: "@, s.document_lines),
        labeled_number("- Blank lines: "@, s.blank_lines),
        text_line(Seq::empty()),
        if m.include_languages {
            text_line("Languages included "@ + decimal(m.report.languages@.len()))
        } else {
            text_line("Languages included no"@)
        },
        if m.include_files {
            text_line("Files included "@ + decimal(file_count(m.report.languages@)))
        } else {
            text_line("Files included no"@)
        },
    ];
    match m.status {
        Some(st) => body + seq![text_line(Seq::empty()), text_line(st)],
        None => body,
    }
}

fn prefixed_line(prefix: &str, text: &str) -> (line: TextLine)
    ensures
        line_view(line) == text_line(prefix@ + text@),
{
    let mut s = String::new();
    push_all(&mut s, prefix);
    push_all(&mut s, text);
    plain_line(s)
}

/// The number of files of all languages together.
fn total_file_count(languages: &Vec<LanguageStat>) -> (count: usize)
    requires
        file_count(languages@) <= usize::MAX,
    ensures
        count == file_count(languages@),
{
    let ghost f = |l: LanguageStat| l.file_stats@.len();
    let mut count: usize = 0;
    let mut i: usize = 0;
    while i < languages.len()
        invariant
            i <= languages@.len(),
            f == (|l: LanguageStat| l.file_stats@.len()),
            sum_of(languages@, f) <= usize::MAX,
            count == sum_of(languages@.take(i as int), f),
        decreases languages@.len() - i,
    {
        proof {
            lemma_sum_step(languages@, f, i as int);
            lemma_sum_prefix_le(languages@, f, i as int);
        }
        count = count + languages[i].file_stats.len();
        i = i + 1;
    }
    proof {
        lemma_sum_all(languages@, f);
    }
    count
}

/// The preview of the report view, with `target` as the export path.
pub fn report_preview_lines_to(state: &AppState, target: &str) -> (lines: Vec<TextLine>)
    requires
        file_count(state@.report.languages@) <= usize::MAX,
    ensures
        lines_view(lines@) == report_preview_text(state@, target@),
{
    let ghost m = state@;
    let summary = &state.report().summary;
    let mut lines: Vec<TextLine> = Vec::new();
    let mut title: Vec<TextSpan> = Vec::new();
    title.push(span_str("# Project Line Report", fg_style(Tone::Title)));
    let l0 = line_of(title);
    assert(line_view(l0) =~= seq![("# Project Line Report"@, fg(Tone::Title))]);
    lines.push(l0);
    lines.push(prefixed_line("- Root: ", summary.root.as_str()));
    lines.push(prefixed_line("Target ", target));
    lines.push(plain_line(String::new()));
    lines.push(labeled_number_line("- Files: ", summary.files));
    lines.push(labeled_number_line("- Total lines: ", summary.total_lines));
    lines.push(labeled_number_line("- Code lines: ", summary.code_lines));
    lines.push(labeled_number_line("- Comment lines: ", summary.comment_lines));
    lines.push(labeled_number_line("- Document lines: ", summary.document_lines));
    lines.push(labeled_number_line("- Blank lines: ", summary.blank_lines));
    lines.push(plain_line(String::new()));
    if state.includes_language_details() {
        lines.push(labeled_number_line("Languages included ", state.report().languages.len()));
    } else {
        lines.push(plain_line_str("Languages included no"));
    }
    if state.includes_file_details() {
        let count = total_file_count(&state.report().languages);
        lines.push(labeled_number_line("Files included ", count));
    } else {
        lines.push(plain_line_str("Files included no"));
    }
    match state.report_status() {
        Some(status) => {
            lines.push(plain_line(String::new()));
            lines.push(plain_line_str(status));
        },
        None => {},
    }
    assert(lines_view(lines@) =~= report_preview_text(m, target@));
    lines
}

/// The preview of the report view, with the export path that `report_output_path`
/// gives.
pub fn report_preview_lines(state: &AppState) -> (lines: Vec<TextLine>)
    requires
        file_count(state@.report.languages@) <= usize::MAX,
    ensures
        exists|target: Seq<char>|
            (crate::report::slash_separated(state@.report.summary.root@) ==> joined(
                state@.report.summary.root@,
                report_file_name_text(state@.format),
                target,
            )) && lines_view(lines@)
                == report_preview_text(state@, target),
{
    let target = report_output_path(state);
    report_preview_lines_to(state, target.as_str())
}

/// Whether `bar_fits` holds, tested without overflow.
fn bar_fits_exec(code: usize, comments: usize, documents: usize, blanks: usize, width: usize) -> (ok: bool)
    ensures
        ok == bar_fits(code as nat, comments as nat, documents as nat, blanks as nat, width as nat),
{
    if width < 1 || width > 1024 {
        return false;
    }
    let sum = match code.checked_add(comments) {
        Some(a) => match a.checked_add(documents) {
            Some(b) => b.checked_add(blanks),
            None => None,
        },
        None => None,
    };
    if sum.is_none() {
        return false;
    }
    width.checked_mul(code).is_some() && width.checked_mul(comments).is_some() && width.checked_mul(
        documents,
    ).is_some()
}

/// Whether `row_fits` holds, tested without overflow.
fn row_fits_exec(value: usize, total: usize) -> (ok: bool)
    ensures
        ok == row_fits(value as nat, total as nat),
{
    if total == 0 {
        return false;
    }
    match value.checked_mul(100) {
        Some(scaled) => (scaled / total).checked_mul(20).is_some(),
        None => false,
    }
}

/// Whether the counts of `languages` hold no more files than `usize` can count.
fn file_count_fits(languages: &Vec<LanguageStat>) -> (ok: bool)
    ensures
        ok == (file_count(languages@) <= usize::MAX),
{
    let ghost f = |l: LanguageStat| l.file_stats@.len();
    let mut count: usize = 0;
    let mut i: usize = 0;
    while i < languages.len()
        invariant
            i <= languages@.len(),
            f == (|l: LanguageStat| l.file_stats@.len()),
            count == sum_of(languages@.take(i as int), f),
        decreases languages@.len() - i,
    {
        proof {
            lemma_sum_step(languages@, f, i as int);
            lemma_sum_prefix_le(languages@, f, i as int);
        }
        match count.checked_add(languages[i].file_stats.len()) {
            Some(c) => {
                count = c;
            },
            None => {
                proof {
                    lemma_sum_prefix_le(languages@, f, i as int);
                }
                return false;
            },
        }
        i = i + 1;
    }
    proof {
        lemma_sum_all(languages@, f);
    }
    true
}

/// Whether every panel of the terminal UI can be built for `state` without overflow:
/// the conditions that `stats_lines`, `composition_lines`, `explorer_language_lines`,
/// `explorer_detail_lines` and `report_preview_lines` require.
pub fn panels_fit(state: &AppState) -> (ok: bool)
    ensures
        ok == (stats_fit(state@.report) && composition_fits(state@.report) && explorer_fits(state@) && details_fit(
            state@,
        ) && file_count(state@.report.languages@) <= usize::MAX),
{
    let report = state.report();
    let c = &report.categories;
    if !bar_fits_exec(c.code, c.comments, c.documents, c.blanks, 64) {
        return false;
    }
    let total = if report.summary.total_lines >= 1 { report.summary.total_lines } else { 1 };
    if !(row_fits_exec(c.code, total) && row_fits_exec(c.comments, total) && row_fits_exec(c.documents, total)
        && row_fits_exec(c.blanks, total)) {
        return false;
    }
    let shown = state.filtered_languages();
    let mut i: usize = 0;
    while i < shown.len()
        invariant
            i <= shown@.len(),
            shown@.len() == state@.shown().len(),
            forall|k: int| 0 <= k < shown@.len() ==> *#[trigger] shown@[k] == state@.shown()[k],
            forall|k: int| 0 <= k < i ==> (#[trigger] state@.shown()[k]).total_lines * 100 <= usize::MAX,
        decreases shown@.len() - i,
    {
        if shown[i].total_lines.checked_mul(100).is_none() {
            assert(state@.shown()[i as int] == *shown@[i as int]);
            return false;
        }
        i = i + 1;
    }
    let details = match state.selected_language() {
        Some(l) => bar_fits_exec(l.code_lines, l.comment_lines, l.document_lines, l.blank_lines, 36),
        None => true,
    };
    details && file_count_fits(&report.languages)
}

} // verus!
