//! What each printed or rendered number is: every cell and line of the reports, the
//! console summary and the dashboard, tied to the count of the same name.
use vstd::prelude::*;
use vstd::seq_lib::lemma_concat_associative;
use crate::model::{ScanReport, ScanSummary, LanguageStat, FileStat};
use crate::text::{decimal, pad_left, pad_right};
use crate::state::AppModel;
use crate::console::{
    summary_text, padded_cells, language_row, category_name, change_row, signed_change, summary_change_text,
    metric_line,
};
use crate::diff::{LanguageDelta, LineDelta};
use crate::view::visible_lines;
use crate::view::{
    Tone, composition_text, composition_total, filled_of, repeated, fg, stats_text, segment_bar_line, bar_total,
    segment_width_of, explorer_detail_text, report_preview_text, text_line,
};
use crate::report::{
    ReportRenderOptions, number_cells, markdown_escaped, html_escaped, csv_escaped, md_language_row, md_file_row,
    md_summary, markdown_text, md_languages, csv_record, csv_text, csv_header, csv_languages,
    language_numbers, file_numbers, summary_numbers, html_row, html_details, html_language_rows, html_summary,
    html_metric, html_composition, bar_segment_text, BarWidths,
};

verus! {

/// Six numbers written as cells: each after `sep`, in order.
proof fn lemma_six_cells(v: Seq<usize>, sep: Seq<char>)
    requires
        v.len() == 6,
    ensures
        number_cells(v, sep) == sep + decimal(v[0] as nat) + sep + decimal(v[1] as nat) + sep + decimal(v[2] as nat)
            + sep + decimal(v[3] as nat) + sep + decimal(v[4] as nat) + sep + decimal(v[5] as nat),
{
    let v5 = v.drop_last();
    let v4 = v5.drop_last();
    let v3 = v4.drop_last();
    let v2 = v3.drop_last();
    let v1 = v2.drop_last();
    let v0 = v1.drop_last();
    assert(number_cells(v0, sep) == Seq::<char>::empty());
    assert(number_cells(v1, sep) == number_cells(v0, sep) + sep + decimal(v[0] as nat));
    assert(number_cells(v2, sep) == number_cells(v1, sep) + sep + decimal(v[1] as nat));
    assert(number_cells(v3, sep) == number_cells(v2, sep) + sep + decimal(v[2] as nat));
    assert(number_cells(v4, sep) == number_cells(v3, sep) + sep + decimal(v[3] as nat));
    assert(number_cells(v5, sep) == number_cells(v4, sep) + sep + decimal(v[4] as nat));
    assert(number_cells(v, sep) == number_cells(v5, sep) + sep + decimal(v[5] as nat));
    assert(number_cells(v, sep) =~= sep + decimal(v[0] as nat) + sep + decimal(v[1] as nat) + sep + decimal(
        v[2] as nat,
    ) + sep + decimal(v[3] as nat) + sep + decimal(v[4] as nat) + sep + decimal(v[5] as nat));
}

/// Five numbers written as cells: each after `sep`, in order.
proof fn lemma_five_cells(v: Seq<usize>, sep: Seq<char>)
    requires
        v.len() == 5,
    ensures
        number_cells(v, sep) == sep + decimal(v[0] as nat) + sep + decimal(v[1] as nat) + sep + decimal(v[2] as nat)
            + sep + decimal(v[3] as nat) + sep + decimal(v[4] as nat),
{
    let v4 = v.drop_last();
    let v3 = v4.drop_last();
    let v2 = v3.drop_last();
    let v1 = v2.drop_last();
    let v0 = v1.drop_last();
    assert(number_cells(v0, sep) == Seq::<char>::empty());
    assert(number_cells(v1, sep) == number_cells(v0, sep) + sep + decimal(v[0] as nat));
    assert(number_cells(v2, sep) == number_cells(v1, sep) + sep + decimal(v[1] as nat));
    assert(number_cells(v3, sep) == number_cells(v2, sep) + sep + decimal(v[2] as nat));
    assert(number_cells(v4, sep) == number_cells(v3, sep) + sep + decimal(v[3] as nat));
    assert(number_cells(v, sep) == number_cells(v4, sep) + sep + decimal(v[4] as nat));
    assert(number_cells(v, sep) =~= sep + decimal(v[0] as nat) + sep + decimal(v[1] as nat) + sep + decimal(
        v[2] as nat,
    ) + sep + decimal(v[3] as nat) + sep + decimal(v[4] as nat));
}

/// Moving a left-nested run of twelve pieces out of its brackets.
proof fn lemma_flat12(
    x: Seq<char>,
    a0: Seq<char>,
    a1: Seq<char>,
    a2: Seq<char>,
    a3: Seq<char>,
    a4: Seq<char>,
    a5: Seq<char>,
    a6: Seq<char>,
    a7: Seq<char>,
    a8: Seq<char>,
    a9: Seq<char>,
    a10: Seq<char>,
    a11: Seq<char>,
)
    ensures
        x + (a0 + a1 + a2 + a3 + a4 + a5 + a6 + a7 + a8 + a9 + a10 + a11) == x + a0 + a1 + a2 + a3 + a4 + a5 + a6
            + a7 + a8 + a9 + a10 + a11,
{
    let c2 = a0 + a1;
    let c3 = c2 + a2;
    let c4 = c3 + a3;
    let c5 = c4 + a4;
    let c6 = c5 + a5;
    let c7 = c6 + a6;
    let c8 = c7 + a7;
    let c9 = c8 + a8;
    let c10 = c9 + a9;
    let c11 = c10 + a10;
    lemma_concat_associative(x, c11, a11);
    lemma_concat_associative(x, c10, a10);
    lemma_concat_associative(x, c9, a9);
    lemma_concat_associative(x, c8, a8);
    lemma_concat_associative(x, c7, a7);
    lemma_concat_associative(x, c6, a6);
    lemma_concat_associative(x, c5, a5);
    lemma_concat_associative(x, c4, a4);
    lemma_concat_associative(x, c3, a3);
    lemma_concat_associative(x, c2, a2);
    lemma_concat_associative(x, a0, a1);
}

/// Moving a left-nested run of ten pieces out of its brackets.
proof fn lemma_flat10(
    x: Seq<char>,
    a0: Seq<char>,
    a1: Seq<char>,
    a2: Seq<char>,
    a3: Seq<char>,
    a4: Seq<char>,
    a5: Seq<char>,
    a6: Seq<char>,
    a7: Seq<char>,
    a8: Seq<char>,
    a9: Seq<char>,
)
    ensures
        x + (a0 + a1 + a2 + a3 + a4 + a5 + a6 + a7 + a8 + a9) == x + a0 + a1 + a2 + a3 + a4 + a5 + a6 + a7 + a8 + a9,
{
    let c2 = a0 + a1;
    let c3 = c2 + a2;
    let c4 = c3 + a3;
    let c5 = c4 + a4;
    let c6 = c5 + a5;
    let c7 = c6 + a6;
    let c8 = c7 + a7;
    let c9 = c8 + a8;
    lemma_concat_associative(x, c9, a9);
    lemma_concat_associative(x, c8, a8);
    lemma_concat_associative(x, c7, a7);
    lemma_concat_associative(x, c6, a6);
    lemma_concat_associative(x, c5, a5);
    lemma_concat_associative(x, c4, a4);
    lemma_concat_associative(x, c3, a3);
    lemma_concat_associative(x, c2, a2);
    lemma_concat_associative(x, a0, a1);
}

/// Moving a left-nested run of three pieces out of its brackets.
proof fn lemma_flat3(x: Seq<char>, a0: Seq<char>, a1: Seq<char>, a2: Seq<char>)
    ensures
        x + (a0 + a1 + a2) == x + a0 + a1 + a2,
{
    lemma_concat_associative(x, a0 + a1, a2);
    lemma_concat_associative(x, a0, a1);
}

/// Moving a left-nested run of four pieces out of its brackets.
proof fn lemma_flat4(x: Seq<char>, a0: Seq<char>, a1: Seq<char>, a2: Seq<char>, a3: Seq<char>)
    ensures
        x + (a0 + a1 + a2 + a3) == x + a0 + a1 + a2 + a3,
{
    lemma_concat_associative(x, a0 + a1 + a2, a3);
    lemma_flat3(x, a0, a1, a2);
}

/// The Markdown table row of a language, cell by cell: name, files, total, code,
/// comment, document and blank lines, under the header of the same names.
pub open spec fn md_language_cells(l: LanguageStat) -> Seq<char> {
    "| "@ + markdown_escaped(l.name@) + " | "@ + decimal(l.files as nat) + " | "@ + decimal(l.total_lines as nat)
        + " | "@ + decimal(l.code_lines as nat) + " | "@ + decimal(l.comment_lines as nat) + " | "@ + decimal(
        l.document_lines as nat,
    ) + " | "@ + decimal(l.blank_lines as nat) + " |\n"@
}

/// The CSV record of a language, field by field.
pub open spec fn csv_language_fields(l: LanguageStat) -> Seq<char> {
    "language,"@ + csv_escaped(l.name@) + ","@ + decimal(l.files as nat) + ","@ + decimal(l.total_lines as nat) + ","@
        + decimal(l.code_lines as nat) + ","@ + decimal(l.comment_lines as nat) + ","@ + decimal(
        l.document_lines as nat,
    ) + ","@ + decimal(l.blank_lines as nat) + "\n"@
}

/// The HTML table row of a language, cell by cell.
pub open spec fn html_language_cells(l: LanguageStat) -> Seq<char> {
    "<tr><td>"@ + html_escaped(l.name@) + "</td><td>"@ + decimal(l.files as nat) + "</td><td>"@ + decimal(
        l.total_lines as nat,
    ) + "</td><td>"@ + decimal(l.code_lines as nat) + "</td><td>"@ + decimal(l.comment_lines as nat)
        + "</td><td>"@ + decimal(l.document_lines as nat) + "</td><td>"@ + decimal(l.blank_lines as nat)
        + "</td></tr>\n"@
}

/// Six counts written after `sep` each, with the prefix `x` before them.
proof fn lemma_prefixed_six(x: Seq<char>, v: Seq<usize>, sep: Seq<char>)
    requires
        v.len() == 6,
    ensures
        x + number_cells(v, sep) == x + sep + decimal(v[0] as nat) + sep + decimal(v[1] as nat) + sep + decimal(
            v[2] as nat,
        ) + sep + decimal(v[3] as nat) + sep + decimal(v[4] as nat) + sep + decimal(v[5] as nat),
{
    lemma_six_cells(v, sep);
    lemma_flat12(
        x,
        sep,
        decimal(v[0] as nat),
        sep,
        decimal(v[1] as nat),
        sep,
        decimal(v[2] as nat),
        sep,
        decimal(v[3] as nat),
        sep,
        decimal(v[4] as nat),
        sep,
        decimal(v[5] as nat),
    );
}

/// Five counts written after `sep` each, with the prefix `x` before them.
proof fn lemma_prefixed_five(x: Seq<char>, v: Seq<usize>, sep: Seq<char>)
    requires
        v.len() == 5,
    ensures
        x + number_cells(v, sep) == x + sep + decimal(v[0] as nat) + sep + decimal(v[1] as nat) + sep + decimal(
            v[2] as nat,
        ) + sep + decimal(v[3] as nat) + sep + decimal(v[4] as nat),
{
    lemma_five_cells(v, sep);
    lemma_flat10(
        x,
        sep,
        decimal(v[0] as nat),
        sep,
        decimal(v[1] as nat),
        sep,
        decimal(v[2] as nat),
        sep,
        decimal(v[3] as nat),
        sep,
        decimal(v[4] as nat),
    );
}

/// Every language row of a Markdown report holds the language's files, total, code,
/// comment, document and blank lines under the header cells of those names.
pub proof fn law_markdown_language_row(l: LanguageStat)
    ensures
        md_language_row(l) == md_language_cells(l),
{
    lemma_prefixed_six("| "@ + markdown_escaped(l.name@), language_numbers(l), " | "@);
}

/// Every language record of a CSV report holds the language's files, total, code,
/// comment, document and blank lines in the header fields of those names.
pub proof fn law_csv_language_record(l: LanguageStat)
    ensures
        csv_record("language,"@, l.name@, language_numbers(l)) == csv_language_fields(l),
{
    lemma_prefixed_six("language,"@ + csv_escaped(l.name@), language_numbers(l), ","@);
}

/// Every language row of an HTML report holds the language's files, total, code,
/// comment, document and blank lines under the header cells of those names.
pub proof fn law_html_language_row(l: LanguageStat)
    ensures
        html_row(l.name@, language_numbers(l)) == html_language_cells(l),
{
    lemma_prefixed_six("<tr><td>"@ + html_escaped(l.name@), language_numbers(l), "</td><td>"@);
}

/// Every file row of a report holds the file's total, code, comment, document and blank
/// lines in the columns of those names (in CSV after a file count of 1), beside the
/// path as shown.
pub proof fn law_file_row_cells(f: FileStat, shown: Seq<char>)
    ensures
        md_file_row(f, shown) == "| "@ + markdown_escaped(shown) + " | "@ + decimal(f.total_lines as nat) + " | "@
            + decimal(f.code_lines as nat) + " | "@ + decimal(f.comment_lines as nat) + " | "@ + decimal(
            f.document_lines as nat,
        ) + " | "@ + decimal(f.blank_lines as nat) + " |\n"@,
        csv_record("file,"@, shown, seq![1usize] + file_numbers(f)) == "file,"@ + csv_escaped(shown) + ","@ + decimal(
            1,
        ) + ","@ + decimal(f.total_lines as nat) + ","@ + decimal(f.code_lines as nat) + ","@ + decimal(
            f.comment_lines as nat,
        ) + ","@ + decimal(f.document_lines as nat) + ","@ + decimal(f.blank_lines as nat) + "\n"@,
        html_row(shown, file_numbers(f)) == "<tr><td>"@ + html_escaped(shown) + "</td><td>"@ + decimal(
            f.total_lines as nat,
        ) + "</td><td>"@ + decimal(f.code_lines as nat) + "</td><td>"@ + decimal(f.comment_lines as nat)
            + "</td><td>"@ + decimal(f.document_lines as nat) + "</td><td>"@ + decimal(f.blank_lines as nat)
            + "</td></tr>\n"@,
{
    let counted = seq![1usize] + file_numbers(f);
    assert(counted[0] == 1usize && counted[1] == f.total_lines && counted[2] == f.code_lines && counted[3]
        == f.comment_lines && counted[4] == f.document_lines && counted[5] == f.blank_lines);
    lemma_prefixed_five("| "@ + markdown_escaped(shown), file_numbers(f), " | "@);
    lemma_prefixed_six("file,"@ + csv_escaped(shown), counted, ","@);
    lemma_prefixed_five("<tr><td>"@ + html_escaped(shown), file_numbers(f), "</td><td>"@);
}

/// The Markdown summary names each count of the scan beside its label: files, total,
/// code, comment, document and blank lines, in that order.
pub proof fn law_markdown_summary(s: ScanSummary)
    ensures
        md_summary(s) == "# code-count report\n\n"@ + "- Root: "@ + s.root@ + "\n"@ + "- Files: "@ + decimal(
            s.files as nat,
        ) + "\n"@ + "- Total lines: "@ + decimal(s.total_lines as nat) + "\n"@ + "- Code lines: "@ + decimal(
            s.code_lines as nat,
        ) + "\n"@ + "- Comment lines: "@ + decimal(s.comment_lines as nat) + "\n"@ + "- Document lines: "@
            + decimal(s.document_lines as nat) + "\n"@ + "- Blank lines: "@ + decimal(s.blank_lines as nat) + "\n"@,
{
    let nl = "\n"@;
    let x0 = "# code-count report\n\n"@ + "- Root: "@ + s.root@ + nl;
    lemma_flat3(x0, "- Files: "@, decimal(s.files as nat), nl);
    let x1 = x0 + "- Files: "@ + decimal(s.files as nat) + nl;
    lemma_flat3(x1, "- Total lines: "@, decimal(s.total_lines as nat), nl);
    let x2 = x1 + "- Total lines: "@ + decimal(s.total_lines as nat) + nl;
    lemma_flat3(x2, "- Code lines: "@, decimal(s.code_lines as nat), nl);
    let x3 = x2 + "- Code lines: "@ + decimal(s.code_lines as nat) + nl;
    lemma_flat3(x3, "- Comment lines: "@, decimal(s.comment_lines as nat), nl);
    let x4 = x3 + "- Comment lines: "@ + decimal(s.comment_lines as nat) + nl;
    lemma_flat3(x4, "- Document lines: "@, decimal(s.document_lines as nat), nl);
    let x5 = x4 + "- Document lines: "@ + decimal(s.document_lines as nat) + nl;
    lemma_flat3(x5, "- Blank lines: "@, decimal(s.blank_lines as nat), nl);
}

/// The summary record of a CSV report holds the scan's files, total, code, comment,
/// document and blank lines in the header fields of those names.
pub proof fn law_csv_summary(s: ScanSummary)
    ensures
        csv_record("summary,"@, s.root@, summary_numbers(s)) == "summary,"@ + csv_escaped(s.root@) + ","@ + decimal(
            s.files as nat,
        ) + ","@ + decimal(s.total_lines as nat) + ","@ + decimal(s.code_lines as nat) + ","@ + decimal(
            s.comment_lines as nat,
        ) + ","@ + decimal(s.document_lines as nat) + ","@ + decimal(s.blank_lines as nat) + "\n"@,
{
    lemma_prefixed_six("summary,"@ + csv_escaped(s.root@), summary_numbers(s), ","@);
}

/// The language rows of the first `n` languages, cell by cell, in Markdown.
pub open spec fn md_rows_by_cells(ls: Seq<LanguageStat>, n: int) -> Seq<char>
    decreases n,
{
    if n <= 0 {
        Seq::empty()
    } else {
        md_rows_by_cells(ls, n - 1) + md_language_cells(ls[n - 1])
    }
}

/// The language records of the first `n` languages, field by field, in CSV.
pub open spec fn csv_rows_by_fields(ls: Seq<LanguageStat>, n: int) -> Seq<char>
    decreases n,
{
    if n <= 0 {
        Seq::empty()
    } else {
        csv_rows_by_fields(ls, n - 1) + csv_language_fields(ls[n - 1])
    }
}

/// The language rows of the first `n` languages, cell by cell, in HTML.
pub open spec fn html_rows_by_cells(ls: Seq<LanguageStat>, n: int) -> Seq<char>
    decreases n,
{
    if n <= 0 {
        Seq::empty()
    } else {
        html_rows_by_cells(ls, n - 1) + html_language_cells(ls[n - 1])
    }
}

proof fn lemma_rows_by_cells(ls: Seq<LanguageStat>, paths: Seq<Seq<Seq<char>>>, n: int)
    requires
        0 <= n <= ls.len(),
    ensures
        md_languages(ls, paths, false, n) == md_rows_by_cells(ls, n),
        csv_languages(ls, paths, false, n) == csv_rows_by_fields(ls, n),
        html_language_rows(ls, n) == html_rows_by_cells(ls, n),
    decreases n,
{
    if n > 0 {
        lemma_rows_by_cells(ls, paths, n - 1);
        law_markdown_language_row(ls[n - 1]);
        law_csv_language_record(ls[n - 1]);
        law_html_language_row(ls[n - 1]);
    }
}

/// A report with language details and no file details: in Markdown, the summary, the
/// table header, then one row per language in report order, each holding the language's
/// files, total, code, comment, document and blank lines under the header of those
/// names; in CSV, the header, the summary record, then one record per language with the
/// same fields in the same order; in HTML, the language table with the same cells.
pub proof fn law_language_tables(report: ScanReport, options: ReportRenderOptions, paths: Seq<Seq<Seq<char>>>)
    requires
        options.include_language_details,
        !options.include_file_details,
    ensures
        markdown_text(report, options, paths) == md_summary(report.summary) + "\n## Languages\n\n"@
            + "| Language | Files | Total | Code | Comments | Documents | Blank |\n"@
            + "| --- | ---: | ---: | ---: | ---: | ---: | ---: |\n"@ + md_rows_by_cells(
            report.languages@,
            report.languages@.len() as int,
        ),
        csv_text(report, options, paths) == csv_header() + csv_record("summary,"@, report.summary.root@, summary_numbers(report.summary))
            + csv_rows_by_fields(report.languages@, report.languages@.len() as int),
        html_details(report, options, paths) == "<h2>Languages</h2>\n"@
            + "<table>\n<thead><tr><th>Language</th><th>Files</th><th>Total</th><th>Code</th><th>Comments</th><th>Documents</th><th>Blank</th></tr></thead>\n<tbody>\n"@
            + html_rows_by_cells(report.languages@, report.languages@.len() as int) + "</tbody>\n</table>\n"@,
{
    lemma_rows_by_cells(report.languages@, paths, report.languages@.len() as int);
    assert(html_details(report, options, paths) =~= "<h2>Languages</h2>\n"@
        + "<table>\n<thead><tr><th>Language</th><th>Files</th><th>Total</th><th>Code</th><th>Comments</th><th>Documents</th><th>Blank</th></tr></thead>\n<tbody>\n"@
        + html_rows_by_cells(report.languages@, report.languages@.len() as int) + "</tbody>\n</table>\n"@);
}

/// The dashboard's composition panel has one row per line category, in the order code,
/// comments, docs, blank: each row is labelled with its category, fills its bar with
/// that category's mark, and shows that category's count as a whole percentage of the
/// total lines (of one, when the scan found none).
pub proof fn law_composition_rows(m: AppModel)
    ensures
        composition_total(m.report) == (if m.report.summary.total_lines >= 1 {
            m.report.summary.total_lines as nat
        } else {
            1nat
        }),
        composition_text(m).len() == 4,
        composition_text(m)[0][0] == (pad_right("Code"@, 9), fg(Tone::Code)),
        composition_text(m)[0][1].0 == repeated('#', filled_of(m.report.categories.code as nat, composition_total(m.report))),
        composition_text(m)[0][4].0 == pad_left(
            decimal(m.report.categories.code as nat * 100 / composition_total(m.report)),
            3,
        ) + "%"@,
        composition_text(m)[1][0] == (pad_right("Comments"@, 9), fg(Tone::Comments)),
        composition_text(m)[1][1].0 == repeated(
            '=',
            filled_of(m.report.categories.comments as nat, composition_total(m.report)),
        ),
        composition_text(m)[1][4].0 == pad_left(
            decimal(m.report.categories.comments as nat * 100 / composition_total(m.report)),
            3,
        ) + "%"@,
        composition_text(m)[2][0] == (pad_right("Docs"@, 9), fg(Tone::Docs)),
        composition_text(m)[2][1].0 == repeated(
            '+',
            filled_of(m.report.categories.documents as nat, composition_total(m.report)),
        ),
        composition_text(m)[2][4].0 == pad_left(
            decimal(m.report.categories.documents as nat * 100 / composition_total(m.report)),
            3,
        ) + "%"@,
        composition_text(m)[3][0] == (pad_right("Blank"@, 9), fg(Tone::Muted)),
        composition_text(m)[3][1].0 == repeated('.', filled_of(m.report.categories.blanks as nat, composition_total(m.report))),
        composition_text(m)[3][4].0 == pad_left(
            decimal(m.report.categories.blanks as nat * 100 / composition_total(m.report)),
            3,
        ) + "%"@,
{
}

/// The summary that the command line prints has one line per count, each label beside
/// the count of its name: the root, then files, total, code, comment, document and
/// blank lines.
pub proof fn law_console_summary(s: ScanSummary)
    ensures
        summary_text(s) == "Root"@ + ": "@ + s.root@ + "\n"@ + "Files"@ + ": "@ + decimal(s.files as nat) + "\n"@
            + "Total lines"@ + ": "@ + decimal(s.total_lines as nat) + "\n"@ + "Code lines"@ + ": "@ + decimal(
            s.code_lines as nat,
        ) + "\n"@ + "Comment lines"@ + ": "@ + decimal(s.comment_lines as nat) + "\n"@ + "Document lines"@ + ": "@
            + decimal(s.document_lines as nat) + "\n"@ + "Blank lines"@ + ": "@ + decimal(s.blank_lines as nat)
            + "\n"@,
{
    let c = ": "@;
    let nl = "\n"@;
    let x0 = "Root"@ + c + s.root@ + nl;
    lemma_flat4(x0, "Files"@, c, decimal(s.files as nat), nl);
    let x1 = x0 + "Files"@ + c + decimal(s.files as nat) + nl;
    lemma_flat4(x1, "Total lines"@, c, decimal(s.total_lines as nat), nl);
    let x2 = x1 + "Total lines"@ + c + decimal(s.total_lines as nat) + nl;
    lemma_flat4(x2, "Code lines"@, c, decimal(s.code_lines as nat), nl);
    let x3 = x2 + "Code lines"@ + c + decimal(s.code_lines as nat) + nl;
    lemma_flat4(x3, "Comment lines"@, c, decimal(s.comment_lines as nat), nl);
    let x4 = x3 + "Comment lines"@ + c + decimal(s.comment_lines as nat) + nl;
    lemma_flat4(x4, "Document lines"@, c, decimal(s.document_lines as nat), nl);
    let x5 = x4 + "Document lines"@ + c + decimal(s.document_lines as nat) + nl;
    lemma_flat4(x5, "Blank lines"@, c, decimal(s.blank_lines as nat), nl);
}

/// The summary of an HTML report shows each count of the scan in the metric labelled
/// with its name: files, total, code, comment, document and blank lines, in that order.
pub proof fn law_html_summary(s: ScanSummary)
    ensures
        html_summary(s) == "<p class=\"root\">Root: "@ + html_escaped(s.root@) + "</p>\n"@
            + "<section class=\"metrics\" aria-label=\"Summary metrics\">\n"@ + html_metric("Files"@, s.files)
            + html_metric("Total lines"@, s.total_lines) + html_metric("Code lines"@, s.code_lines) + html_metric(
            "Comment lines"@,
            s.comment_lines,
        ) + html_metric("Document lines"@, s.document_lines) + html_metric("Blank lines"@, s.blank_lines)
            + "</section>\n"@,
{
}

/// A composition bar marks code with `#`, comments with `=` and documents with `+`, each
/// over its own share of the width, and fills the rest with `.` for blank lines.
pub proof fn law_bar_marks(code: nat, comments: nat, documents: nat, blanks: nat, width: nat)
    ensures
        segment_bar_line(code, comments, documents, blanks, width).len() == 4,
        segment_bar_line(code, comments, documents, blanks, width)[0] == (
            repeated('#', segment_width_of(code, bar_total(code, comments, documents, blanks), width)),
            fg(Tone::Code),
        ),
        segment_bar_line(code, comments, documents, blanks, width)[1] == (
            repeated('=', segment_width_of(comments, bar_total(code, comments, documents, blanks), width)),
            fg(Tone::Comments),
        ),
        segment_bar_line(code, comments, documents, blanks, width)[2] == (
            repeated('+', segment_width_of(documents, bar_total(code, comments, documents, blanks), width)),
            fg(Tone::Docs),
        ),
        bar_total(code, comments, documents, blanks) == (if code + comments + documents + blanks >= 1 {
            code + comments + documents + blanks
        } else {
            1nat
        }),
{
}

/// The dashboard's summary panel shows the total lines and files, a bar of the four
/// line categories in the order code, comments, documents, blank, and each count of
/// lines beside its own name.
pub proof fn law_dashboard_counts(m: AppModel)
    ensures
        stats_text(m).len() == 4,
        stats_text(m)[0][0].0 == "Total"@ && stats_text(m)[0][2].0 == decimal(m.report.summary.total_lines as nat),
        stats_text(m)[0][4].0 == "Files"@ && stats_text(m)[0][6].0 == decimal(m.report.summary.files as nat),
        stats_text(m)[1] == segment_bar_line(
            m.report.categories.code as nat,
            m.report.categories.comments as nat,
            m.report.categories.documents as nat,
            m.report.categories.blanks as nat,
            64,
        ),
        stats_text(m)[2][0].0 == "code"@ && stats_text(m)[2][1].0 == " "@ + decimal(m.report.summary.code_lines as nat),
        stats_text(m)[2][3].0 == "comments"@ && stats_text(m)[2][4].0 == " "@ + decimal(
            m.report.summary.comment_lines as nat,
        ),
        stats_text(m)[3][0].0 == "docs"@ && stats_text(m)[3][1].0 == " "@ + decimal(
            m.report.summary.document_lines as nat,
        ),
        stats_text(m)[3][3].0 == "blank"@ && stats_text(m)[3][4].0 == " "@ + decimal(m.report.summary.blank_lines as nat),
{
}

/// The explorer's details of the selected language show its bar of code, comment,
/// document and blank lines, then each of its counts beside its own name.
pub proof fn law_explorer_detail_counts(m: AppModel, shown: Seq<Seq<char>>, l: LanguageStat)
    requires
        m.selected_language() == Some(l),
    ensures
        explorer_detail_text(m, shown)[1] == segment_bar_line(
            l.code_lines as nat,
            l.comment_lines as nat,
            l.document_lines as nat,
            l.blank_lines as nat,
            36,
        ),
        explorer_detail_text(m, shown)[4] == text_line("Files "@ + decimal(l.files as nat)),
        explorer_detail_text(m, shown)[5] == text_line("Total "@ + decimal(l.total_lines as nat)),
        explorer_detail_text(m, shown)[6] == text_line("Code "@ + decimal(l.code_lines as nat)),
        explorer_detail_text(m, shown)[7] == text_line("Comments "@ + decimal(l.comment_lines as nat)),
        explorer_detail_text(m, shown)[8] == text_line("Documents "@ + decimal(l.document_lines as nat)),
        explorer_detail_text(m, shown)[9] == text_line("Blank "@ + decimal(l.blank_lines as nat)),
{
}

/// The report view's preview lists each count of the scan beside its own name, in the
/// order of the exported summary.
pub proof fn law_report_preview_counts(m: AppModel, target: Seq<char>)
    ensures
        report_preview_text(m, target)[4] == text_line("- Files: "@ + decimal(m.report.summary.files as nat)),
        report_preview_text(m, target)[5] == text_line("- Total lines: "@ + decimal(m.report.summary.total_lines as nat)),
        report_preview_text(m, target)[6] == text_line("- Code lines: "@ + decimal(m.report.summary.code_lines as nat)),
        report_preview_text(m, target)[7] == text_line(
            "- Comment lines: "@ + decimal(m.report.summary.comment_lines as nat),
        ),
        report_preview_text(m, target)[8] == text_line(
            "- Document lines: "@ + decimal(m.report.summary.document_lines as nat),
        ),
        report_preview_text(m, target)[9] == text_line("- Blank lines: "@ + decimal(m.report.summary.blank_lines as nat)),
{
}

/// Six cells, each after a space and right-aligned in its width, with the prefix `x`
/// before them.
proof fn lemma_six_padded(x: Seq<char>, cells: Seq<Seq<char>>, widths: Seq<nat>)
    requires
        cells.len() == 6,
    ensures
        x + padded_cells(cells, widths, 6) == x + " "@ + pad_left(cells[0], widths[0]) + " "@ + pad_left(
            cells[1],
            widths[1],
        ) + " "@ + pad_left(cells[2], widths[2]) + " "@ + pad_left(cells[3], widths[3]) + " "@ + pad_left(
            cells[4],
            widths[4],
        ) + " "@ + pad_left(cells[5], widths[5]),
{
    let sp = " "@;
    assert(padded_cells(cells, widths, 0) == Seq::<char>::empty());
    assert(Seq::<char>::empty() + sp =~= sp);
    assert(padded_cells(cells, widths, 1) == sp + pad_left(cells[0], widths[0]));
    assert(padded_cells(cells, widths, 2) == padded_cells(cells, widths, 1) + sp + pad_left(cells[1], widths[1]));
    assert(padded_cells(cells, widths, 3) == padded_cells(cells, widths, 2) + sp + pad_left(cells[2], widths[2]));
    assert(padded_cells(cells, widths, 4) == padded_cells(cells, widths, 3) + sp + pad_left(cells[3], widths[3]));
    assert(padded_cells(cells, widths, 5) == padded_cells(cells, widths, 4) + sp + pad_left(cells[4], widths[4]));
    assert(padded_cells(cells, widths, 6) == padded_cells(cells, widths, 5) + sp + pad_left(cells[5], widths[5]));
    lemma_flat12(
        x,
        sp,
        pad_left(cells[0], widths[0]),
        sp,
        pad_left(cells[1], widths[1]),
        sp,
        pad_left(cells[2], widths[2]),
        sp,
        pad_left(cells[3], widths[3]),
        sp,
        pad_left(cells[4], widths[4]),
        sp,
        pad_left(cells[5], widths[5]),
    );
}

/// Each row of the language table that the command line prints holds, under the
/// header `Files Total Code Comments Blank Category`, the language's files, total
/// lines, visible lines, comment lines, blank lines and category, in that order.
pub proof fn law_console_language_row(l: LanguageStat)
    ensures
        language_row(l) == pad_right(l.name@, 16) + " "@ + pad_left(decimal(l.files as nat), 8) + " "@ + pad_left(
            decimal(l.total_lines as nat),
            8,
        ) + " "@ + pad_left(decimal(visible_lines(l) as nat), 8) + " "@ + pad_left(decimal(l.comment_lines as nat), 10)
            + " "@ + pad_left(decimal(l.blank_lines as nat), 8) + " "@ + pad_left(category_name(l), 10) + "\n"@,
{
    let cells = seq![
        decimal(l.files as nat),
        decimal(l.total_lines as nat),
        decimal(visible_lines(l) as nat),
        decimal(l.comment_lines as nat),
        decimal(l.blank_lines as nat),
        category_name(l),
    ];
    let widths = seq![8nat, 8nat, 8nat, 10nat, 8nat, 10nat];
    lemma_six_padded(pad_right(l.name@, 16), cells, widths);
}

/// Each row of the table of changed languages holds, under the header
/// `Files Total Code Comments Blank Documents`, the change of the language's files,
/// total, code, comment, blank and document lines, in that order.
pub proof fn law_console_change_row(d: LanguageDelta)
    ensures
        change_row(d) == pad_right(d.name@, 16) + " "@ + pad_left(signed_change(d.files as int), 8) + " "@ + pad_left(
            signed_change(d.total_lines as int),
            8,
        ) + " "@ + pad_left(signed_change(d.code_lines as int), 8) + " "@ + pad_left(
            signed_change(d.comment_lines as int),
            10,
        ) + " "@ + pad_left(signed_change(d.blank_lines as int), 8) + " "@ + pad_left(
            signed_change(d.document_lines as int),
            10,
        ) + "\n"@,
{
    let cells = seq![
        signed_change(d.files as int),
        signed_change(d.total_lines as int),
        signed_change(d.code_lines as int),
        signed_change(d.comment_lines as int),
        signed_change(d.blank_lines as int),
        signed_change(d.document_lines as int),
    ];
    let widths = seq![8nat, 8nat, 8nat, 10nat, 8nat, 10nat];
    lemma_six_padded(pad_right(d.name@, 16), cells, widths);
}

/// The printed changes of the totals have one line per count, each label beside the
/// change of the count of its name.
pub proof fn law_console_summary_changes(d: LineDelta)
    ensures
        summary_change_text(d) == "Files"@ + ": "@ + signed_change(d.files as int) + "\n"@ + "Total lines"@ + ": "@
            + signed_change(d.total_lines as int) + "\n"@ + "Code lines"@ + ": "@ + signed_change(d.code_lines as int)
            + "\n"@ + "Comment lines"@ + ": "@ + signed_change(d.comment_lines as int) + "\n"@ + "Document lines"@
            + ": "@ + signed_change(d.document_lines as int) + "\n"@ + "Blank lines"@ + ": "@ + signed_change(
            d.blank_lines as int,
        ) + "\n"@,
{
    let c = ": "@;
    let nl = "\n"@;
    let x1 = "Files"@ + c + signed_change(d.files as int) + nl;
    assert(metric_line("Files"@, signed_change(d.files as int)) == x1);
    lemma_flat4(x1, "Total lines"@, c, signed_change(d.total_lines as int), nl);
    let x2 = x1 + "Total lines"@ + c + signed_change(d.total_lines as int) + nl;
    lemma_flat4(x2, "Code lines"@, c, signed_change(d.code_lines as int), nl);
    let x3 = x2 + "Code lines"@ + c + signed_change(d.code_lines as int) + nl;
    lemma_flat4(x3, "Comment lines"@, c, signed_change(d.comment_lines as int), nl);
    let x4 = x3 + "Comment lines"@ + c + signed_change(d.comment_lines as int) + nl;
    lemma_flat4(x4, "Document lines"@, c, signed_change(d.document_lines as int), nl);
    let x5 = x4 + "Document lines"@ + c + signed_change(d.document_lines as int) + nl;
    lemma_flat4(x5, "Blank lines"@, c, signed_change(d.blank_lines as int), nl);
}

/// The composition bar of an HTML report has a segment for each category with lines, in
/// the order code, comments, docs, blank, each with the class and width of its own
/// category, and its legend names each category beside its own count.
pub proof fn law_html_composition(report: ScanReport, widths: BarWidths)
    ensures
        html_composition(report, widths) == "<h2>Composition</h2>\n"@
            + "<div class=\"bar\" aria-label=\"Line composition\">\n"@ + bar_segment_text(
            "code"@,
            report.categories.code,
            widths.code@,
        ) + bar_segment_text("comments"@, report.categories.comments, widths.comments@) + bar_segment_text(
            "docs"@,
            report.categories.documents,
            widths.documents@,
        ) + bar_segment_text("blank"@, report.categories.blanks, widths.blanks@) + "</div>\n"@
            + "<div class=\"legend\">"@ + "<span><b>Code</b> "@ + decimal(report.categories.code as nat) + "</span>"@
            + "<span><b>Comments</b> "@ + decimal(report.categories.comments as nat) + "</span>"@
            + "<span><b>Docs</b> "@ + decimal(report.categories.documents as nat) + "</span>"@
            + "<span><b>Blank</b> "@ + decimal(report.categories.blanks as nat) + "</span>"@ + "</div>\n"@,
        forall|class_name: Seq<char>, value: usize, width: Seq<char>|
            value > 0 ==> #[trigger] bar_segment_text(class_name, value, width) == "<div class=\""@ + html_escaped(
                class_name,
            ) + "\" style=\"width:"@ + width + "%\"></div>\n"@,
{
}

} // verus!
