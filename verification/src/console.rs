//! Plain-text output of the command line: the summary of a scan, its language table,
//! the changes between two scans and the short preview shown outside a terminal.
use vstd::prelude::*;
use crate::model::{ScanReport, ScanSummary, LanguageStat};
use crate::diff::{ScanReportDiff, LineDelta, LanguageDelta};
use crate::text::{decimal, signed_decimal, push_all, push_decimal, push_padded_right, push_padded_left, decimal_string};
use crate::view::{visible_lines, language_visible_code};

verus! {

/// One line `label: value`.
pub open spec fn metric_line(label: Seq<char>, value: Seq<char>) -> Seq<char> {
    label + ": "@ + value + "\n"@
}

fn push_metric_line(out: &mut String, label: &str, value: usize)
    ensures
        final(out)@ == old(out)@ + metric_line(label@, decimal(value as nat)),
{
    let ghost start = out@;
    push_all(out, label);
    push_all(out, ": ");
    push_decimal(out, value);
    push_all(out, "\n");
    assert(out@ =~= start + metric_line(label@, decimal(value as nat)));
}

/// The summary of a scan, one count per line.
pub open spec fn summary_text(s: ScanSummary) -> Seq<char> {
    metric_line("Root"@, s.root@)
        + metric_line("Files"@, decimal(s.files as nat))
        + metric_line("Total lines"@, decimal(s.total_lines as nat))
        + metric_line("Code lines"@, decimal(s.code_lines as nat))
        + metric_line("Comment lines"@, decimal(s.comment_lines as nat))
        + metric_line("Document lines"@, decimal(s.document_lines as nat))
        + metric_line("Blank lines"@, decimal(s.blank_lines as nat))
}

/// The summary of a scan as the command line prints it: the root, then the number of
/// files, of lines, and of each kind of line.
pub fn summary_lines(summary: &ScanSummary) -> (text: String)
    ensures
        text@ == summary_text(*summary),
{
    let mut out = String::new();
    push_all(&mut out, "Root");
    push_all(&mut out, ": ");
    push_all(&mut out, summary.root.as_str());
    push_all(&mut out, "\n");
    push_metric_line(&mut out, "Files", summary.files);
    push_metric_line(&mut out, "Total lines", summary.total_lines);
    push_metric_line(&mut out, "Code lines", summary.code_lines);
    push_metric_line(&mut out, "Comment lines", summary.comment_lines);
    push_metric_line(&mut out, "Document lines", summary.document_lines);
    push_metric_line(&mut out, "Blank lines", summary.blank_lines);
    assert(out@ =~= summary_text(*summary));
    out
}

/// A row of the language table: the name left-aligned in 16 columns, then six cells
/// right-aligned in 8, 8, 8, 10, 8 and 10 columns.
pub open spec fn table_row(name: Seq<char>, cells: Seq<Seq<char>>) -> Seq<char> {
    pad_cells(name, cells, seq![8nat, 8nat, 8nat, 10nat, 8nat, 10nat])
}

/// `name` left-aligned in 16 columns, then each cell right-aligned in its width, one
/// space apart, and a line end.
pub open spec fn pad_cells(name: Seq<char>, cells: Seq<Seq<char>>, widths: Seq<nat>) -> Seq<char> {
    crate::text::pad_right(name, 16) + padded_cells(cells, widths, cells.len() as int) + "\n"@
}

/// The first `n` cells, each after a space and right-aligned in its width.
pub open spec fn padded_cells(cells: Seq<Seq<char>>, widths: Seq<nat>, n: int) -> Seq<char>
    decreases n,
{
    if n <= 0 {
        Seq::empty()
    } else {
        padded_cells(cells, widths, n - 1) + " "@ + crate::text::pad_left(cells[n - 1], widths[n - 1])
    }
}

/// The category a language is listed under.
pub open spec fn category_name(l: LanguageStat) -> Seq<char> {
    if l.is_document {
        "Documents"@
    } else {
        "Code"@
    }
}

/// The row of a language: files, lines, visible code, comments, blanks, category.
pub open spec fn language_row(l: LanguageStat) -> Seq<char> {
    table_row(
        l.name@,
        seq![
            decimal(l.files as nat),
            decimal(l.total_lines as nat),
            decimal(visible_lines(l) as nat),
            decimal(l.comment_lines as nat),
            decimal(l.blank_lines as nat),
            category_name(l),
        ],
    )
}

/// The rows of the first `n` languages.
pub open spec fn language_rows(ls: Seq<LanguageStat>, n: int) -> Seq<char>
    decreases n,
{
    if n <= 0 {
        Seq::empty()
    } else {
        language_rows(ls, n - 1) + language_row(ls[n - 1])
    }
}

/// The language table of a report: a title, a header row and one row per language.
pub open spec fn languages_text(r: ScanReport) -> Seq<char> {
    "Languages:\n"@ + table_row(
        "Name"@,
        seq!["Files"@, "Total"@, "Code"@, "Comments"@, "Blank"@, "Category"@],
    ) + language_rows(r.languages@, r.languages@.len() as int)
}

/// Appends a row: `name` left-aligned in 16 columns, each cell right-aligned in its width.
fn push_row(out: &mut String, name: &str, cells: &Vec<String>, widths: &Vec<usize>)
    requires
        cells@.len() == widths@.len(),
    ensures
        final(out)@ == old(out)@ + pad_cells(name@, cells.deep_view(), widths@.map_values(|w: usize| w as nat)),
{
    let ghost start = out@;
    let ghost cv = cells.deep_view();
    let ghost wv = widths@.map_values(|w: usize| w as nat);
    push_padded_right(out, name, 16);
    let ghost head = out@;
    let mut i: usize = 0;
    while i < cells.len()
        invariant
            i <= cells@.len(),
            cells@.len() == widths@.len(),
            cv == cells.deep_view(),
            wv == widths@.map_values(|w: usize| w as nat),
            out@ == head + padded_cells(cv, wv, i as int),
        decreases cells@.len() - i,
    {
        let ghost before = out@;
        push_all(out, " ");
        push_padded_left(out, cells[i].as_str(), widths[i]);
        assert(cv[i as int] == cells@[i as int]@);
        assert(wv[i as int] == widths@[i as int] as nat);
        i = i + 1;
        assert(out@ =~= head + padded_cells(cv, wv, i as int));
    }
    push_all(out, "\n");
    assert(out@ =~= start + pad_cells(name@, cv, wv));
}

fn table_widths() -> (widths: Vec<usize>)
    ensures
        widths@.map_values(|w: usize| w as nat) == seq![8nat, 8nat, 8nat, 10nat, 8nat, 10nat],
        widths@.len() == 6,
{
    let widths: Vec<usize> = vec![8, 8, 8, 10, 8, 10];
    assert(widths@.map_values(|w: usize| w as nat) =~= seq![8nat, 8nat, 8nat, 10nat, 8nat, 10nat]);
    widths
}

fn six_cells(a: String, b: String, c: String, d: String, e: String, f: String) -> (cells: Vec<String>)
    ensures
        cells.deep_view() == seq![a@, b@, c@, d@, e@, f@],
        cells@.len() == 6,
{
    let cells: Vec<String> = vec![a, b, c, d, e, f];
    assert(cells.deep_view() =~= seq![a@, b@, c@, d@, e@, f@]);
    cells
}

/// The language table of a report as the command line prints it: one row per
/// language, with its files, lines, visible code, comments, blank lines and category.
pub fn language_table(report: &ScanReport) -> (text: String)
    ensures
        text@ == languages_text(*report),
{
    let widths = table_widths();
    let mut out = String::new();
    push_all(&mut out, "Languages:\n");
    let header = six_cells(
        "Files".to_string(),
        "Total".to_string(),
        "Code".to_string(),
        "Comments".to_string(),
        "Blank".to_string(),
        "Category".to_string(),
    );
    push_row(&mut out, "Name", &header, &widths);
    let ghost head = out@;
    let mut i: usize = 0;
    while i < report.languages.len()
        invariant
            i <= report.languages@.len(),
            widths@.map_values(|w: usize| w as nat) == seq![8nat, 8nat, 8nat, 10nat, 8nat, 10nat],
            widths@.len() == 6,
            out@ == head + language_rows(report.languages@, i as int),
        decreases report.languages@.len() - i,
    {
        let language = &report.languages[i];
        let category = if language.is_document { "Documents" } else { "Code" };
        let cells = six_cells(
            decimal_string(language.files),
            decimal_string(language.total_lines),
            decimal_string(language_visible_code(language)),
            decimal_string(language.comment_lines),
            decimal_string(language.blank_lines),
            category.to_string(),
        );
        push_row(&mut out, language.name.as_str(), &cells, &widths);
        i = i + 1;
        assert(out@ =~= head + language_rows(report.languages@, i as int));
    }
    out
}

/// A change with its sign always written: `+3`, `+0`, `-2`.
pub open spec fn signed_change(n: int) -> Seq<char> {
    if n < 0 {
        signed_decimal(n)
    } else {
        "+"@ + decimal(n as nat)
    }
}

fn push_signed_change(out: &mut String, n: isize)
    ensures
        final(out)@ == old(out)@ + signed_change(n as int),
{
    if n < 0 {
        crate::text::push_signed_decimal(out, n);
    } else {
        let ghost start = out@;
        push_all(out, "+");
        push_decimal(out, n as usize);
        assert(out@ =~= start + signed_change(n as int));
    }
}

fn signed_change_string(n: isize) -> (text: String)
    ensures
        text@ == signed_change(n as int),
{
    let mut out = String::new();
    push_signed_change(&mut out, n);
    assert(out@ =~= signed_change(n as int));
    out
}

fn push_change_line(out: &mut String, label: &str, value: isize)
    ensures
        final(out)@ == old(out)@ + metric_line(label@, signed_change(value as int)),
{
    let ghost start = out@;
    push_all(out, label);
    push_all(out, ": ");
    push_signed_change(out, value);
    push_all(out, "\n");
    assert(out@ =~= start + metric_line(label@, signed_change(value as int)));
}

/// The changes of the totals, one per line.
pub open spec fn summary_change_text(d: LineDelta) -> Seq<char> {
    metric_line("Files"@, signed_change(d.files as int))
        + metric_line("Total lines"@, signed_change(d.total_lines as int))
        + metric_line("Code lines"@, signed_change(d.code_lines as int))
        + metric_line("Comment lines"@, signed_change(d.comment_lines as int))
        + metric_line("Document lines"@, signed_change(d.document_lines as int))
        + metric_line("Blank lines"@, signed_change(d.blank_lines as int))
}

/// The row of a changed language: the change of its files and of each count.
pub open spec fn change_row(d: LanguageDelta) -> Seq<char> {
    table_row(
        d.name@,
        seq![
            signed_change(d.files as int),
            signed_change(d.total_lines as int),
            signed_change(d.code_lines as int),
            signed_change(d.comment_lines as int),
            signed_change(d.blank_lines as int),
            signed_change(d.document_lines as int),
        ],
    )
}

/// The rows of the first `n` changed languages.
pub open spec fn change_rows(ds: Seq<LanguageDelta>, n: int) -> Seq<char>
    decreases n,
{
    if n <= 0 {
        Seq::empty()
    } else {
        change_rows(ds, n - 1) + change_row(ds[n - 1])
    }
}

/// The changes between two scans: both roots, the change of each total, and, when a
/// language changed, a table of the changed languages.
pub open spec fn diff_text(d: ScanReportDiff) -> Seq<char> {
    "Scan diff\n"@ + metric_line("Before"@, d.before_root@) + metric_line("After"@, d.after_root@)
        + summary_change_text(d.summary) + if d.languages@.len() == 0 {
        Seq::empty()
    } else {
        "\nLanguages:\n"@ + change_table(d.languages@)
    }
}

/// The table of changed languages, after its title.
pub open spec fn change_table(ds: Seq<LanguageDelta>) -> Seq<char> {
    table_row("Name"@, seq!["Files"@, "Total"@, "Code"@, "Comments"@, "Blank"@, "Documents"@]) + change_rows(
        ds,
        ds.len() as int,
    )
}

fn push_change_table(out: &mut String, languages: &Vec<LanguageDelta>)
    ensures
        final(out)@ == old(out)@ + change_table(languages@),
{
    let ghost start = out@;
    let widths = table_widths();
    let header = six_cells(
        "Files".to_string(),
        "Total".to_string(),
        "Code".to_string(),
        "Comments".to_string(),
        "Blank".to_string(),
        "Documents".to_string(),
    );
    push_row(out, "Name", &header, &widths);
    let ghost head = out@;
    let mut i: usize = 0;
    while i < languages.len()
        invariant
            i <= languages@.len(),
            widths@.map_values(|w: usize| w as nat) == seq![8nat, 8nat, 8nat, 10nat, 8nat, 10nat],
            widths@.len() == 6,
            out@ == head + change_rows(languages@, i as int),
        decreases languages@.len() - i,
    {
        let d = &languages[i];
        let cells = six_cells(
            signed_change_string(d.files),
            signed_change_string(d.total_lines),
            signed_change_string(d.code_lines),
            signed_change_string(d.comment_lines),
            signed_change_string(d.blank_lines),
            signed_change_string(d.document_lines),
        );
        push_row(out, d.name.as_str(), &cells, &widths);
        i = i + 1;
        assert(out@ =~= head + change_rows(languages@, i as int));
    }
    assert(out@ =~= start + change_table(languages@));
}

fn push_summary_changes(out: &mut String, d: &LineDelta)
    ensures
        final(out)@ == old(out)@ + summary_change_text(*d),
{
    let ghost start = out@;
    push_change_line(out, "Files", d.files);
    push_change_line(out, "Total lines", d.total_lines);
    push_change_line(out, "Code lines", d.code_lines);
    push_change_line(out, "Comment lines", d.comment_lines);
    push_change_line(out, "Document lines", d.document_lines);
    push_change_line(out, "Blank lines", d.blank_lines);
    assert(out@ =~= start + summary_change_text(*d));
}

fn push_text_line(out: &mut String, label: &str, value: &str)
    ensures
        final(out)@ == old(out)@ + metric_line(label@, value@),
{
    let ghost start = out@;
    push_all(out, label);
    push_all(out, ": ");
    push_all(out, value);
    push_all(out, "\n");
    assert(out@ =~= start + metric_line(label@, value@));
}

/// The changes between two scans as the command line prints them, every change with
/// its sign.
pub fn diff_lines(diff: &ScanReportDiff) -> (text: String)
    ensures
        text@ == diff_text(*diff),
{
    let mut out = String::new();
    push_all(&mut out, "Scan diff\n");
    push_text_line(&mut out, "Before", diff.before_root.as_str());
    push_text_line(&mut out, "After", diff.after_root.as_str());
    push_summary_changes(&mut out, &diff.summary);
    let ghost before_table = out@;
    if diff.languages.len() > 0 {
        push_all(&mut out, "\nLanguages:\n");
        push_change_table(&mut out, &diff.languages);
    }
    assert(out@ =~= diff_text(*diff));
    out
}

/// What is printed in place of the terminal UI when no terminal is attached.
pub open spec fn preview_text(r: ScanReport) -> Seq<char> {
    "TUI preview\n"@ + metric_line("Root"@, r.summary.root@) + metric_line("Files"@, decimal(r.summary.files as nat))
        + metric_line("Total lines"@, decimal(r.summary.total_lines as nat))
        + "Run this command in an interactive terminal for the full TUI.\n"@
}

/// The short preview printed in place of the terminal UI: the root, the number of files
/// and of lines, and a hint.
pub fn non_interactive_preview(report: &ScanReport) -> (text: String)
    ensures
        text@ == preview_text(*report),
{
    let mut out = String::new();
    push_all(&mut out, "TUI preview\n");
    push_all(&mut out, "Root");
    push_all(&mut out, ": ");
    push_all(&mut out, report.summary.root.as_str());
    push_all(&mut out, "\n");
    push_metric_line(&mut out, "Files", report.summary.files);
    push_metric_line(&mut out, "Total lines", report.summary.total_lines);
    push_all(&mut out, "Run this command in an interactive terminal for the full TUI.\n");
    assert(out@ =~= preview_text(*report));
    out
}

} // verus!
