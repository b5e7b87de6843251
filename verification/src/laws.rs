//! Properties that hold across the operations of the library.
use vstd::prelude::*;
use crate::model::{
    ScanReport, ScanOptions, LanguageCounts, is_report_of, sum_of, lines_fn, blanks_fn, comments_fn,
    documents_fn, code_fn,
};
use crate::model::{
    LanguageStat, FileStat, language_stat_matches, files_fn, lines_of, file_stat_matches, counts_are_document,
    files_of_one_kind, ties_by_path,
};
use crate::sort::{is_index_permutation, listed, precedes};
use crate::diff::{
    ScanReportDiff, LanguageDelta, is_report_diff, is_language_changes, is_language_delta, unchanged, has_language,
    magnitude, name_sum, f_files, f_total, f_blanks, f_comments, f_documents, f_code,
};
use crate::text::{lex_lt, lemma_lex_irreflexive, lemma_lex_transitive};
use crate::state::{
    AppModel, AppView, view_after, format_after, format_before, select_next_model, select_previous_model,
    shown_languages, language_shown, key_transition, KeyCode, KeyAction,
};
use crate::report::{ReportFormat, html_escaped, html_char, html_unescaped};
use crate::config::{ScanFlags, ProjectConfig, is_scan_options};

verus! {

/// Each line a scan counts falls in exactly one category: the total is the sum of the
/// blank, comment, document and code lines. With blank lines and comments counted, the
/// summary's four counts, and the four categories, add up to the total.
pub proof fn law_total_is_sum_of_categories(report: ScanReport, root: Seq<char>, languages: Seq<LanguageCounts>, options: ScanOptions)
    requires
        is_report_of(report, root, languages, options),
        options.include_blank_lines,
        options.include_comments,
    ensures
        report.summary.total_lines == report.summary.blank_lines + report.summary.comment_lines
            + report.summary.document_lines + report.summary.code_lines,
        report.summary.total_lines == report.categories.code + report.categories.comments
            + report.categories.documents + report.categories.blanks,
{
    lemma_lines_split(languages);
}

/// One run's entry `f` and another's `g` for the same file, the runs counting blank
/// lines and comments as `oa` and `ob` say: the same path, total, code and document
/// lines; blank and comment lines equal where both runs count them alike, and zero in
/// `f` where its run leaves them out.
pub open spec fn same_file_counts(f: FileStat, g: FileStat, oa: ScanOptions, ob: ScanOptions) -> bool {
    &&& f.path@ == g.path@
    &&& f.total_lines == g.total_lines
    &&& f.code_lines == g.code_lines
    &&& f.document_lines == g.document_lines
    &&& (oa.include_blank_lines == ob.include_blank_lines ==> f.blank_lines == g.blank_lines)
    &&& (!oa.include_blank_lines ==> f.blank_lines == 0)
    &&& (oa.include_comments == ob.include_comments ==> f.comment_lines == g.comment_lines)
    &&& (!oa.include_comments ==> f.comment_lines == 0)
}

/// One run's entry `x` and another's `y` for the same language, the runs counting blank
/// lines and comments as `oa` and `ob` say: the same name, files, total, code and
/// document lines and category; blank and comment lines as for files; and each file of
/// `x` has an entry for the same file in `y`.
pub open spec fn same_language_counts(x: LanguageStat, y: LanguageStat, oa: ScanOptions, ob: ScanOptions) -> bool {
    &&& x.name@ == y.name@
    &&& x.files == y.files
    &&& x.total_lines == y.total_lines
    &&& x.code_lines == y.code_lines
    &&& x.document_lines == y.document_lines
    &&& x.is_document == y.is_document
    &&& (oa.include_blank_lines == ob.include_blank_lines ==> x.blank_lines == y.blank_lines)
    &&& (!oa.include_blank_lines ==> x.blank_lines == 0)
    &&& (oa.include_comments == ob.include_comments ==> x.comment_lines == y.comment_lines)
    &&& (!oa.include_comments ==> x.comment_lines == 0)
    &&& x.file_stats@.len() == y.file_stats@.len()
    &&& forall|j: int| 0 <= j < x.file_stats@.len() ==> has_same_file(y.file_stats@, #[trigger] x.file_stats@[j], oa, ob)
}

/// `files` holds an entry for the same file as `f`, in the sense of `same_file_counts`.
pub open spec fn has_same_file(files: Seq<FileStat>, f: FileStat, oa: ScanOptions, ob: ScanOptions) -> bool {
    exists|i: int| 0 <= i < files.len() && same_file_counts(f, #[trigger] files[i], oa, ob)
}

/// Counting blank lines or comments, or not, changes nothing but those counts: two scans
/// of the same counts with different switches have the same total, files, code and
/// document lines, in the summary, the categories, every language and every file, list
/// the languages in the same order, and each run shows zero blank lines or comments
/// wherever it leaves them out (the same numbers wherever both runs count them).
pub proof fn law_options_keep_total(
    a: ScanReport,
    b: ScanReport,
    root: Seq<char>,
    languages: Seq<LanguageCounts>,
    options_a: ScanOptions,
    options_b: ScanOptions,
)
    requires
        is_report_of(a, root, languages, options_a),
        is_report_of(b, root, languages, options_b),
    ensures
        a.summary.total_lines == b.summary.total_lines,
        a.summary.files == b.summary.files,
        a.summary.code_lines == b.summary.code_lines,
        a.summary.document_lines == b.summary.document_lines,
        a.categories.code == b.categories.code,
        a.categories.documents == b.categories.documents,
        options_a.include_blank_lines == options_b.include_blank_lines ==> a.summary.blank_lines
            == b.summary.blank_lines && a.categories.blanks == b.categories.blanks,
        !options_a.include_blank_lines ==> a.summary.blank_lines == 0 && a.categories.blanks == 0,
        options_a.include_comments == options_b.include_comments ==> a.summary.comment_lines
            == b.summary.comment_lines && a.categories.comments == b.categories.comments,
        !options_a.include_comments ==> a.summary.comment_lines == 0 && a.categories.comments == 0,
        a.languages@.len() == b.languages@.len(),
        forall|k: int|
            0 <= k < a.languages@.len() ==> same_language_counts(
                #[trigger] a.languages@[k],
                b.languages@[k],
                options_a,
                options_b,
            ),
{
    let ls = languages;
    let oa = choose|order: Seq<int>|
        {
            &&& is_index_permutation(order, ls.len())
            &&& a.languages@.len() == ls.len()
            &&& forall|k: int| 0 <= k < ls.len() ==> #[trigger] language_stat_matches(a.languages@[k], ls[order[k]], options_a)
            &&& forall|x: int, y: int| 0 <= x < y < ls.len() ==> #[trigger] precedes(
                a.languages@[x],
                order[x],
                a.languages@[y],
                order[y],
            )
        };
    let ob = choose|order: Seq<int>|
        {
            &&& is_index_permutation(order, ls.len())
            &&& b.languages@.len() == ls.len()
            &&& forall|k: int| 0 <= k < ls.len() ==> #[trigger] language_stat_matches(b.languages@[k], ls[order[k]], options_b)
            &&& forall|x: int, y: int| 0 <= x < y < ls.len() ==> #[trigger] precedes(
                b.languages@[x],
                order[x],
                b.languages@[y],
                order[y],
            )
        };
    assert forall|x: int, y: int| 0 <= x < y < ls.len() implies idx_before(ls, #[trigger] oa[x], #[trigger] oa[y]) by {
        assert(language_stat_matches(a.languages@[x], ls[oa[x]], options_a));
        assert(language_stat_matches(a.languages@[y], ls[oa[y]], options_a));
        assert(precedes(a.languages@[x], oa[x], a.languages@[y], oa[y]));
    }
    assert forall|x: int, y: int| 0 <= x < y < ls.len() implies idx_before(ls, #[trigger] ob[x], #[trigger] ob[y]) by {
        assert(language_stat_matches(b.languages@[x], ls[ob[x]], options_b));
        assert(language_stat_matches(b.languages@[y], ls[ob[y]], options_b));
        assert(precedes(b.languages@[x], ob[x], b.languages@[y], ob[y]));
    }
    lemma_unique_order(ls, oa, ob, ls.len() as int);
    assert forall|k: int| 0 <= k < a.languages@.len() implies same_language_counts(
        #[trigger] a.languages@[k],
        b.languages@[k],
        options_a,
        options_b,
    ) by {
        assert(language_stat_matches(a.languages@[k], ls[oa[k]], options_a));
        assert(language_stat_matches(b.languages@[k], ls[ob[k]], options_b));
        assert(oa[k] == ob[k]);
        lemma_same_files(a.languages@[k], b.languages@[k], ls[oa[k]], options_a, options_b);
    }
}

/// Language `i` of `ls` comes before language `j` in a report: more lines, or as many
/// and a smaller name, or the same name and an earlier position.
pub open spec fn idx_before(ls: Seq<LanguageCounts>, i: int, j: int) -> bool {
    ||| lines_of(ls[i]) > lines_of(ls[j])
    ||| (lines_of(ls[i]) == lines_of(ls[j]) && lex_lt(ls[i].name@, ls[j].name@))
    ||| (lines_of(ls[i]) == lines_of(ls[j]) && ls[i].name@ == ls[j].name@ && i < j)
}

proof fn lemma_idx_asymmetric(ls: Seq<LanguageCounts>, i: int, j: int)
    requires
        idx_before(ls, i, j),
    ensures
        !idx_before(ls, j, i),
{
    let n = ls[i].name@;
    let m = ls[j].name@;
    if idx_before(ls, j, i) && lines_of(ls[i]) == lines_of(ls[j]) {
        lemma_lex_irreflexive(n);
        lemma_lex_irreflexive(m);
        if lex_lt(n, m) && lex_lt(m, n) {
            lemma_lex_transitive(n, m, n);
        }
    }
}

/// Two orders of the same languages that both follow `idx_before` are the same order.
proof fn lemma_unique_order(ls: Seq<LanguageCounts>, o1: Seq<int>, o2: Seq<int>, n: int)
    requires
        is_index_permutation(o1, ls.len()),
        is_index_permutation(o2, ls.len()),
        forall|x: int, y: int| 0 <= x < y < ls.len() ==> idx_before(ls, #[trigger] o1[x], #[trigger] o1[y]),
        forall|x: int, y: int| 0 <= x < y < ls.len() ==> idx_before(ls, #[trigger] o2[x], #[trigger] o2[y]),
        0 <= n <= ls.len(),
    ensures
        forall|k: int| 0 <= k < n ==> #[trigger] o1[k] == o2[k],
    decreases n,
{
    if n > 0 {
        lemma_unique_order(ls, o1, o2, n - 1);
        let k = n - 1;
        let x = o1[k];
        let y = o2[k];
        if x != y {
            assert(0 <= y < ls.len());
            assert(listed(o1, ls.len(), y));
            let j = choose|j: int| 0 <= j < ls.len() && o1[j] == y;
            assert(0 <= x < ls.len());
            assert(listed(o2, ls.len(), x));
            let i = choose|i: int| 0 <= i < ls.len() && o2[i] == x;
            if j < k {
                assert(o1[j] == o2[j]);
            } else if i < k {
                assert(o1[i] == o2[i]);
            } else {
                assert(idx_before(ls, o1[k], o1[j]));
                assert(idx_before(ls, o2[k], o2[i]));
                lemma_idx_asymmetric(ls, x, y);
            }
        }
    }
}

/// The file entries of two runs over the same language counts correspond.
proof fn lemma_same_files(x: LanguageStat, y: LanguageStat, l: LanguageCounts, oa: ScanOptions, ob: ScanOptions)
    requires
        language_stat_matches(x, l, oa),
        language_stat_matches(y, l, ob),
    ensures
        same_language_counts(x, y, oa, ob),
{
    let fa = choose|order: Seq<int>|
        {
            &&& is_index_permutation(order, l.files@.len())
            &&& x.file_stats@.len() == l.files@.len()
            &&& forall|k: int| 0 <= k < x.file_stats@.len() ==> #[trigger] file_stat_matches(
                x.file_stats@[k],
                l.files@[order[k]],
                counts_are_document(l),
                oa,
            )
            &&& forall|p: int, q: int| 0 <= p < q < x.file_stats@.len() ==> #[trigger] x.file_stats@[p].total_lines >= #[trigger] x.file_stats@[q].total_lines
            &&& (files_of_one_kind(l, false) || files_of_one_kind(l, true)) ==> ties_by_path(x.file_stats@)
        };
    let fb = choose|order: Seq<int>|
        {
            &&& is_index_permutation(order, l.files@.len())
            &&& y.file_stats@.len() == l.files@.len()
            &&& forall|k: int| 0 <= k < y.file_stats@.len() ==> #[trigger] file_stat_matches(
                y.file_stats@[k],
                l.files@[order[k]],
                counts_are_document(l),
                ob,
            )
            &&& forall|p: int, q: int| 0 <= p < q < y.file_stats@.len() ==> #[trigger] y.file_stats@[p].total_lines >= #[trigger] y.file_stats@[q].total_lines
            &&& (files_of_one_kind(l, false) || files_of_one_kind(l, true)) ==> ties_by_path(y.file_stats@)
        };
    assert forall|j: int| 0 <= j < x.file_stats@.len() implies has_same_file(y.file_stats@, #[trigger] x.file_stats@[j], oa, ob) by {
        let c = fa[j];
        assert(0 <= c < l.files@.len());
        assert(listed(fb, l.files@.len(), c));
        let i = choose|i: int| 0 <= i < l.files@.len() && fb[i] == c;
        assert(file_stat_matches(x.file_stats@[j], l.files@[c], counts_are_document(l), oa));
        assert(file_stat_matches(y.file_stats@[i], l.files@[c], counts_are_document(l), ob));
        assert(same_file_counts(x.file_stats@[j], y.file_stats@[i], oa, ob));
    }
}

proof fn lemma_lines_split(languages: Seq<LanguageCounts>)
    ensures
        sum_of(languages, lines_fn()) == sum_of(languages, blanks_fn()) + sum_of(languages, comments_fn()) + sum_of(
            languages,
            documents_fn(),
        ) + sum_of(languages, code_fn()),
    decreases languages.len(),
{
    if languages.len() > 0 {
        lemma_lines_split(languages.drop_last());
    }
}

/// The line count of a language entry, for sums.
pub open spec fn stat_lines_fn() -> spec_fn(LanguageStat) -> nat {
    |l: LanguageStat| l.total_lines as nat
}

/// The file count of a language entry, for sums.
pub open spec fn stat_files_fn() -> spec_fn(LanguageStat) -> nat {
    |l: LanguageStat| l.files as nat
}

/// The blank lines of a language entry, for sums.
pub open spec fn stat_blanks_fn() -> spec_fn(LanguageStat) -> nat {
    |l: LanguageStat| l.blank_lines as nat
}

/// The comment lines of a language entry, for sums.
pub open spec fn stat_comments_fn() -> spec_fn(LanguageStat) -> nat {
    |l: LanguageStat| l.comment_lines as nat
}

/// The document lines of a language entry, for sums.
pub open spec fn stat_documents_fn() -> spec_fn(LanguageStat) -> nat {
    |l: LanguageStat| l.document_lines as nat
}

/// The code lines of a language entry, for sums.
pub open spec fn stat_code_fn() -> spec_fn(LanguageStat) -> nat {
    |l: LanguageStat| l.code_lines as nat
}

/// The summary of a report is the sum of its language entries: files, lines and each
/// kind of line.
pub proof fn law_languages_add_up_to_summary(
    report: ScanReport,
    root: Seq<char>,
    languages: Seq<LanguageCounts>,
    options: ScanOptions,
)
    requires
        is_report_of(report, root, languages, options),
    ensures
        report.summary.files == sum_of(report.languages@, stat_files_fn()),
        report.summary.total_lines == sum_of(report.languages@, stat_lines_fn()),
        report.summary.blank_lines == sum_of(report.languages@, stat_blanks_fn()),
        report.summary.comment_lines == sum_of(report.languages@, stat_comments_fn()),
        report.summary.document_lines == sum_of(report.languages@, stat_documents_fn()),
        report.summary.code_lines == sum_of(report.languages@, stat_code_fn()),
{
    let order = choose|order: Seq<int>|
        {
            &&& is_index_permutation(order, languages.len())
            &&& report.languages@.len() == languages.len()
            &&& forall|k: int| 0 <= k < languages.len() ==> #[trigger] language_stat_matches(
                report.languages@[k],
                languages[order[k]],
                options,
            )
            &&& forall|a: int, b: int| 0 <= a < b < languages.len() ==> #[trigger] crate::sort::precedes(
                report.languages@[a],
                order[a],
                report.languages@[b],
                order[b],
            )
        };
    let t = report.languages@;
    assert forall|k: int| 0 <= k < t.len() implies {
        &&& stat_files_fn()(#[trigger] t[k]) == files_fn()(languages[order[k]])
        &&& stat_lines_fn()(t[k]) == lines_fn()(languages[order[k]])
        &&& stat_documents_fn()(t[k]) == documents_fn()(languages[order[k]])
        &&& stat_code_fn()(t[k]) == code_fn()(languages[order[k]])
        &&& options.include_blank_lines ==> stat_blanks_fn()(t[k]) == blanks_fn()(languages[order[k]])
        &&& options.include_comments ==> stat_comments_fn()(t[k]) == comments_fn()(languages[order[k]])
        &&& !options.include_blank_lines ==> stat_blanks_fn()(t[k]) == 0
        &&& !options.include_comments ==> stat_comments_fn()(t[k]) == 0
    } by {
        assert(language_stat_matches(t[k], languages[order[k]], options));
    }
    lemma_sum_permuted(languages, files_fn(), t, stat_files_fn(), order);
    lemma_sum_permuted(languages, lines_fn(), t, stat_lines_fn(), order);
    lemma_sum_permuted(languages, documents_fn(), t, stat_documents_fn(), order);
    lemma_sum_permuted(languages, code_fn(), t, stat_code_fn(), order);
    if options.include_blank_lines {
        lemma_sum_permuted(languages, blanks_fn(), t, stat_blanks_fn(), order);
    } else {
        lemma_sum_zero(t, stat_blanks_fn());
    }
    if options.include_comments {
        lemma_sum_permuted(languages, comments_fn(), t, stat_comments_fn(), order);
    } else {
        lemma_sum_zero(t, stat_comments_fn());
    }
}

proof fn lemma_sum_zero<T>(s: Seq<T>, f: spec_fn(T) -> nat)
    requires
        forall|k: int| 0 <= k < s.len() ==> f(#[trigger] s[k]) == 0,
    ensures
        sum_of(s, f) == 0,
    decreases s.len(),
{
    if s.len() > 0 {
        assert(f(s[s.len() - 1]) == 0);
        lemma_sum_zero(s.drop_last(), f);
    }
}

/// Removing one item from a sequence takes its value off the sum.
proof fn lemma_sum_remove<T>(s: Seq<T>, f: spec_fn(T) -> nat, p: int)
    requires
        0 <= p < s.len(),
    ensures
        sum_of(s, f) == sum_of(s.remove(p), f) + f(s[p]),
    decreases s.len(),
{
    if p == s.len() - 1 {
        assert(s.remove(p) =~= s.drop_last());
    } else {
        lemma_sum_remove(s.drop_last(), f, p);
        assert(s.remove(p).drop_last() =~= s.drop_last().remove(p));
        assert(s.remove(p).last() == s.last());
    }
}

/// A sum does not depend on the order of its items: where `t` lists the items of `s`
/// in the order `order`, and `f` of each item of `t` is `g` of its item of `s`, the two
/// sums are equal.
proof fn lemma_sum_permuted<T, U>(s: Seq<U>, g: spec_fn(U) -> nat, t: Seq<T>, f: spec_fn(T) -> nat, order: Seq<int>)
    requires
        is_index_permutation(order, s.len()),
        t.len() == s.len(),
        forall|k: int| 0 <= k < t.len() ==> f(#[trigger] t[k]) == g(s[order[k]]),
    ensures
        sum_of(t, f) == sum_of(s, g),
    decreases s.len(),
{
    let n = s.len() as int;
    if n > 0 {
        assert(listed(order, n as nat, n - 1));
        let p = choose|p: int| 0 <= p < n && order[p] == n - 1;
        let t2 = t.remove(p);
        let order2 = order.remove(p);
        let s2 = s.drop_last();
        assert forall|k: int| 0 <= k < n - 1 implies 0 <= #[trigger] order2[k] < n - 1 by {
            if k < p {
                assert(order2[k] == order[k]);
                assert(order[k] != order[p]);
            } else {
                assert(order2[k] == order[k + 1]);
                assert(order[k + 1] != order[p]);
            }
        }
        assert forall|a: int, b: int| 0 <= a < b < n - 1 implies order2[a] != order2[b] by {
            let a1 = if a < p { a } else { a + 1 };
            let b1 = if b < p { b } else { b + 1 };
            assert(order2[a] == order[a1]);
            assert(order2[b] == order[b1]);
        }
        assert forall|m: int| 0 <= m < n - 1 implies #[trigger] listed(order2, (n - 1) as nat, m) by {
            assert(listed(order, n as nat, m));
            let k = choose|k: int| 0 <= k < n && order[k] == m;
            if k < p {
                assert(order2[k] == m);
            } else {
                assert(k != p);
                assert(order2[k - 1] == m);
            }
        }
        assert forall|k: int| 0 <= k < t2.len() implies f(#[trigger] t2[k]) == g(s2[order2[k]]) by {
            if k < p {
                assert(t2[k] == t[k]);
                assert(order2[k] == order[k]);
            } else {
                assert(t2[k] == t[k + 1]);
                assert(order2[k] == order[k + 1]);
            }
        }
        lemma_sum_permuted(s2, g, t2, f, order2);
        lemma_sum_remove(t, f, p);
    }
}

/// Comparing a report with itself finds no change: every summary count changes by
/// zero and no language is listed.
pub proof fn law_diff_with_itself_is_empty(diff: ScanReportDiff, report: ScanReport)
    requires
        is_report_diff(diff, report, report),
    ensures
        diff.summary.files == 0,
        diff.summary.total_lines == 0,
        diff.summary.blank_lines == 0,
        diff.summary.comment_lines == 0,
        diff.summary.document_lines == 0,
        diff.summary.code_lines == 0,
        diff.languages@.len() == 0,
{
    if diff.languages@.len() > 0 {
        assert(!unchanged(report.languages@, report.languages@, diff.languages@[0].name@));
    }
}

/// `e` counts the opposite changes of `d`, for the same language.
pub open spec fn negated(d: LanguageDelta, e: LanguageDelta) -> bool {
    &&& e.name@ == d.name@
    &&& e.files == -d.files
    &&& e.total_lines == -d.total_lines
    &&& e.blank_lines == -d.blank_lines
    &&& e.comment_lines == -d.comment_lines
    &&& e.document_lines == -d.document_lines
    &&& e.code_lines == -d.code_lines
}

/// `g` lists a change that negates `d`.
pub open spec fn lists_negation(g: Seq<LanguageDelta>, d: LanguageDelta) -> bool {
    exists|j: int| 0 <= j < g.len() && negated(d, #[trigger] g[j])
}

proof fn lemma_partner(f: Seq<LanguageDelta>, g: Seq<LanguageDelta>, al: Seq<LanguageStat>, bl: Seq<LanguageStat>, k: int)
    requires
        is_language_changes(f, al, bl),
        is_language_changes(g, bl, al),
        0 <= k < f.len(),
    ensures
        lists_negation(g, f[k]),
{
    let name = f[k].name@;
    assert(is_language_delta(f[k], al, bl));
    assert(!unchanged(al, bl, name));
    assert(!unchanged(bl, al, name));
    assert(has_language(bl, name) || has_language(al, name));
    let j = choose|j: int| 0 <= j < g.len() && #[trigger] g[j].name@ == name;
    assert(is_language_delta(g[j], bl, al));
    assert(negated(f[k], g[j]));
}

/// Comparing in the other direction negates every change: the summary changes are
/// negated, and each language listed one way is listed the other way with its changes
/// negated.
pub proof fn law_diff_reverses(forward: ScanReportDiff, backward: ScanReportDiff, a: ScanReport, b: ScanReport)
    requires
        is_report_diff(forward, a, b),
        is_report_diff(backward, b, a),
    ensures
        forward.summary.files == -backward.summary.files,
        forward.summary.total_lines == -backward.summary.total_lines,
        forward.summary.blank_lines == -backward.summary.blank_lines,
        forward.summary.comment_lines == -backward.summary.comment_lines,
        forward.summary.document_lines == -backward.summary.document_lines,
        forward.summary.code_lines == -backward.summary.code_lines,
        forward.languages@.len() == backward.languages@.len(),
        forall|k: int|
            0 <= k < forward.languages@.len() ==> lists_negation(backward.languages@, #[trigger] forward.languages@[k]),
        forall|k: int|
            0 <= k < forward.languages@.len() ==> negated(
                #[trigger] forward.languages@[k],
                backward.languages@[k],
            ),
        forward.before_root@ == backward.after_root@,
        forward.after_root@ == backward.before_root@,
{
    let f = forward.languages@;
    let g = backward.languages@;
    lemma_reverse_lists(f, g, a.languages@, b.languages@);
    lemma_reverse_lists(g, f, b.languages@, a.languages@);
    lemma_ordered_distinct(f, a.languages@, b.languages@);
    lemma_ordered_distinct(g, b.languages@, a.languages@);
    lemma_same_names_upto(f, g, f.len() as int);
    assert forall|k: int| 0 <= k < f.len() implies negated(#[trigger] f[k], g[k]) by {
        assert(lists_negation(g, f[k]));
        let j = choose|j: int| 0 <= j < g.len() && negated(f[k], #[trigger] g[j]);
        if j != k {
            if j < k {
                assert(g[j].name@ != g[k].name@);
            } else {
                assert(g[k].name@ != g[j].name@);
            }
        }
    }
}

/// `d` comes before `e` in a list of changes: larger change of total lines, or equal
/// and a smaller name.
pub open spec fn ranked_before(d: LanguageDelta, e: LanguageDelta) -> bool {
    ||| magnitude(d.total_lines as int) > magnitude(e.total_lines as int)
    ||| (magnitude(d.total_lines as int) == magnitude(e.total_lines as int) && lex_lt(d.name@, e.name@))
}

proof fn lemma_ordered_distinct(f: Seq<LanguageDelta>, al: Seq<LanguageStat>, bl: Seq<LanguageStat>)
    requires
        is_language_changes(f, al, bl),
    ensures
        forall|x: int, y: int| 0 <= x < y < f.len() ==> ranked_before(#[trigger] f[x], #[trigger] f[y]),
        forall|x: int, y: int| 0 <= x < y < f.len() ==> (#[trigger] f[x]).name@ != (#[trigger] f[y]).name@,
{
    assert forall|x: int, y: int| 0 <= x < y < f.len() implies (#[trigger] f[x]).name@ != (#[trigger] f[y]).name@ by {
        lemma_distinct(f, al, bl, x, y);
    }
}

/// Opposite changes of the same two languages cannot be listed in opposite orders.
proof fn lemma_no_swap(d: LanguageDelta, e: LanguageDelta, d2: LanguageDelta, e2: LanguageDelta)
    requires
        negated(d, d2),
        negated(e, e2),
        d.name@ != e.name@,
        ranked_before(d, e),
    ensures
        !ranked_before(e2, d2),
{
    if ranked_before(e2, d2) && magnitude(d.total_lines as int) == magnitude(e.total_lines as int) {
        lemma_lex_transitive(d.name@, e.name@, d.name@);
        lemma_lex_irreflexive(d.name@);
    }
}

/// Two lists of changes in opposite directions, ordered the same way and negating each
/// other, name the same language at each of their first `n` positions.
proof fn lemma_same_names_upto(f: Seq<LanguageDelta>, g: Seq<LanguageDelta>, n: int)
    requires
        f.len() == g.len(),
        forall|x: int, y: int| 0 <= x < y < f.len() ==> ranked_before(#[trigger] f[x], #[trigger] f[y]),
        forall|x: int, y: int| 0 <= x < y < f.len() ==> (#[trigger] f[x]).name@ != (#[trigger] f[y]).name@,
        forall|x: int, y: int| 0 <= x < y < g.len() ==> ranked_before(#[trigger] g[x], #[trigger] g[y]),
        forall|x: int, y: int| 0 <= x < y < g.len() ==> (#[trigger] g[x]).name@ != (#[trigger] g[y]).name@,
        forall|k: int| 0 <= k < f.len() ==> lists_negation(g, #[trigger] f[k]),
        forall|k: int| 0 <= k < g.len() ==> lists_negation(f, #[trigger] g[k]),
        0 <= n <= f.len(),
    ensures
        forall|k: int| 0 <= k < n ==> (#[trigger] f[k]).name@ == g[k].name@,
    decreases n,
{
    if n > 0 {
        lemma_same_names_upto(f, g, n - 1);
        let k = n - 1;
        if f[k].name@ != g[k].name@ {
            assert(lists_negation(f, g[k]));
            let j = choose|j: int| 0 <= j < f.len() && negated(g[k], #[trigger] f[j]);
            assert(lists_negation(g, f[k]));
            let i = choose|i: int| 0 <= i < g.len() && negated(f[k], #[trigger] g[i]);
            if j < k {
                assert(f[j].name@ == g[j].name@);
                assert(g[j].name@ != g[k].name@);
            } else if i < k {
                assert(f[i].name@ == g[i].name@);
                assert(f[i].name@ != f[k].name@);
            } else {
                assert(ranked_before(f[k], f[j]));
                assert(ranked_before(g[k], g[i]));
                lemma_no_swap(f[k], f[j], g[i], g[k]);
            }
        }
    }
}

proof fn lemma_reverse_lists(f: Seq<LanguageDelta>, g: Seq<LanguageDelta>, al: Seq<LanguageStat>, bl: Seq<LanguageStat>)
    requires
        is_language_changes(f, al, bl),
        is_language_changes(g, bl, al),
    ensures
        f.len() == g.len(),
        forall|k: int| 0 <= k < f.len() ==> lists_negation(g, #[trigger] f[k]),
{
    assert forall|k: int| 0 <= k < f.len() implies lists_negation(g, #[trigger] f[k]) by {
        lemma_partner(f, g, al, bl, k);
    }
    assert forall|j: int| 0 <= j < g.len() implies lists_negation(f, #[trigger] g[j]) by {
        lemma_partner(g, f, bl, al, j);
    }
    let fs = f.map_values(|d: LanguageDelta| d.name@);
    let gs = g.map_values(|d: LanguageDelta| d.name@);
    assert forall|x: int, y: int| 0 <= x < fs.len() && 0 <= y < fs.len() && x != y implies fs[x] != fs[y] by {
        if x < y {
            lemma_distinct(f, al, bl, x, y);
        } else {
            lemma_distinct(f, al, bl, y, x);
        }
    }
    assert forall|x: int, y: int| 0 <= x < gs.len() && 0 <= y < gs.len() && x != y implies gs[x] != gs[y] by {
        if x < y {
            lemma_distinct(g, bl, al, x, y);
        } else {
            lemma_distinct(g, bl, al, y, x);
        }
    }
    assert forall|x: Seq<char>| fs.contains(x) implies gs.contains(x) by {
        let k = choose|k: int| 0 <= k < fs.len() && fs[k] == x;
        assert(lists_negation(g, f[k]));
        let j = choose|j: int| 0 <= j < g.len() && negated(f[k], #[trigger] g[j]);
        assert(gs[j] == x);
    }
    assert forall|x: Seq<char>| gs.contains(x) implies fs.contains(x) by {
        let j = choose|j: int| 0 <= j < gs.len() && gs[j] == x;
        assert(lists_negation(f, g[j]));
        let k = choose|k: int| 0 <= k < f.len() && negated(g[j], #[trigger] f[k]);
        assert(fs[k] == x);
    }
    lemma_same_members_same_len(fs, gs);
}

proof fn lemma_distinct(f: Seq<LanguageDelta>, al: Seq<LanguageStat>, bl: Seq<LanguageStat>, x: int, y: int)
    requires
        is_language_changes(f, al, bl),
        0 <= x < y < f.len(),
    ensures
        f[x].name@ != f[y].name@,
{
    if f[x].name@ == f[y].name@ {
        assert(is_language_delta(f[x], al, bl));
        assert(is_language_delta(f[y], al, bl));
        assert(f[x].total_lines == f[y].total_lines);
        lemma_lex_irreflexive(f[x].name@);
        assert(magnitude(f[x].total_lines as int) > magnitude(f[y].total_lines as int) || (magnitude(
            f[x].total_lines as int,
        ) == magnitude(f[y].total_lines as int) && lex_lt(f[x].name@, f[y].name@)));
    }
}

proof fn lemma_same_members_same_len(fs: Seq<Seq<char>>, gs: Seq<Seq<char>>)
    requires
        fs.no_duplicates(),
        gs.no_duplicates(),
        forall|x: Seq<char>| fs.contains(x) ==> gs.contains(x),
        forall|x: Seq<char>| gs.contains(x) ==> fs.contains(x),
    ensures
        fs.len() == gs.len(),
{
    fs.unique_seq_to_set();
    gs.unique_seq_to_set();
    assert(fs.to_set() =~= gs.to_set());
}

/// Each change of a language is the change of the count of its own name: of the
/// language's files, total, code, comment, document and blank lines, each summed over
/// the entries of that name after the scan minus before it.
pub proof fn law_language_delta_fields(d: LanguageDelta, before: Seq<LanguageStat>, after: Seq<LanguageStat>)
    requires
        is_language_delta(d, before, after),
    ensures
        d.files == name_sum(after, d.name@, |l: LanguageStat| l.files as nat) - name_sum(
            before,
            d.name@,
            |l: LanguageStat| l.files as nat,
        ),
        d.total_lines == name_sum(after, d.name@, |l: LanguageStat| l.total_lines as nat) - name_sum(
            before,
            d.name@,
            |l: LanguageStat| l.total_lines as nat,
        ),
        d.code_lines == name_sum(after, d.name@, |l: LanguageStat| l.code_lines as nat) - name_sum(
            before,
            d.name@,
            |l: LanguageStat| l.code_lines as nat,
        ),
        d.comment_lines == name_sum(after, d.name@, |l: LanguageStat| l.comment_lines as nat) - name_sum(
            before,
            d.name@,
            |l: LanguageStat| l.comment_lines as nat,
        ),
        d.document_lines == name_sum(after, d.name@, |l: LanguageStat| l.document_lines as nat) - name_sum(
            before,
            d.name@,
            |l: LanguageStat| l.document_lines as nat,
        ),
        d.blank_lines == name_sum(after, d.name@, |l: LanguageStat| l.blank_lines as nat) - name_sum(
            before,
            d.name@,
            |l: LanguageStat| l.blank_lines as nat,
        ),
{
    assert(f_files() =~= |l: LanguageStat| l.files as nat);
    assert(f_total() =~= |l: LanguageStat| l.total_lines as nat);
    assert(f_code() =~= |l: LanguageStat| l.code_lines as nat);
    assert(f_comments() =~= |l: LanguageStat| l.comment_lines as nat);
    assert(f_documents() =~= |l: LanguageStat| l.document_lines as nat);
    assert(f_blanks() =~= |l: LanguageStat| l.blank_lines as nat);
}

/// The entry of a language holds its raw counts, each under its own name: blank lines
/// as counted (none when blank lines are left out), comments as counted for a language
/// of code (none for a document, or when comments are left out), code and comments
/// together as document lines for a document, code as code for the rest; its total is
/// all of its lines and its file count the number of its files.
pub proof fn law_language_entry_counts(stat: LanguageStat, l: LanguageCounts, options: ScanOptions)
    requires
        language_stat_matches(stat, l, options),
    ensures
        stat.files == l.files@.len(),
        stat.total_lines == l.blanks + l.code + l.comments,
        stat.blank_lines == (if options.include_blank_lines { l.blanks } else { 0 }),
        stat.comment_lines == (if options.include_comments && !counts_are_document(l) { l.comments } else { 0 }),
        stat.document_lines == (if counts_are_document(l) { l.code + l.comments } else { 0 }),
        stat.code_lines == (if counts_are_document(l) { 0 } else { l.code }),
{
}

/// The summary and the four categories of a scan hold the raw counts summed over all
/// languages, each under its own name: blank lines, comments of languages of code,
/// code and comments of documents as document lines, and code of the rest; blank lines
/// and comments are zero where the options leave them out.
pub proof fn law_summary_counts(report: ScanReport, root: Seq<char>, languages: Seq<LanguageCounts>, options: ScanOptions)
    requires
        is_report_of(report, root, languages, options),
    ensures
        report.summary.files == sum_of(languages, |l: LanguageCounts| l.files@.len()),
        report.summary.total_lines == sum_of(languages, |l: LanguageCounts| (l.blanks + l.code + l.comments) as nat),
        report.summary.blank_lines == (if options.include_blank_lines {
            sum_of(languages, |l: LanguageCounts| l.blanks as nat)
        } else {
            0
        }),
        report.summary.comment_lines == (if options.include_comments {
            sum_of(languages, (|l: LanguageCounts| if counts_are_document(l) { 0 } else { l.comments as nat }))
        } else {
            0
        }),
        report.summary.document_lines == sum_of(
            languages,
            (|l: LanguageCounts| if counts_are_document(l) { (l.code + l.comments) as nat } else { 0 }),
        ),
        report.summary.code_lines == sum_of(
            languages,
            (|l: LanguageCounts| if counts_are_document(l) { 0 } else { l.code as nat }),
        ),
        report.categories.blanks == report.summary.blank_lines,
        report.categories.comments == report.summary.comment_lines,
        report.categories.documents == report.summary.document_lines,
        report.categories.code == report.summary.code_lines,
{
    assert(files_fn() =~= |l: LanguageCounts| l.files@.len());
    assert(lines_fn() =~= |l: LanguageCounts| (l.blanks + l.code + l.comments) as nat);
    assert(blanks_fn() =~= |l: LanguageCounts| l.blanks as nat);
    assert(comments_fn() =~= |l: LanguageCounts| if counts_are_document(l) { 0 } else { l.comments as nat });
    assert(documents_fn() =~= |l: LanguageCounts| if counts_are_document(l) { (l.code + l.comments) as nat } else { 0 });
    assert(code_fn() =~= |l: LanguageCounts| if counts_are_document(l) { 0 } else { l.code as nat });
}

/// Three steps of `Tab` come back to the view they started from.
pub proof fn law_views_cycle(view: AppView)
    ensures
        view_after(view_after(view_after(view))) == view,
        view_after(view) != view,
{
}

/// Moving to the next export format and back, or back and then forward, changes
/// nothing; four steps forward come back to the start.
pub proof fn law_formats_cycle(format: ReportFormat)
    ensures
        format_before(format_after(format)) == format,
        format_after(format_before(format)) == format,
        format_after(format_after(format_after(format_after(format)))) == format,
{
}

/// Selecting the previous language and then the next one, or the other way round,
/// comes back to the language selected before, also across the ends of the list.
pub proof fn law_selection_round_trip(m: AppModel)
    requires
        m.selected == 0 || m.selected < m.shown().len(),
    ensures
        select_next_model(select_previous_model(m)) == m,
        select_previous_model(select_next_model(m)) == m,
{
    let n = m.shown().len();
    let p = select_previous_model(m);
    assert(p.shown() == m.shown());
    let q = select_next_model(m);
    assert(q.shown() == m.shown());
    if n > 0 {
        if m.selected == 0 {
            assert(((n - 1) as nat + 1) % n == 0) by (nonlinear_arith)
                requires
                    n > 0,
            ;
        } else {
            assert(((m.selected - 1) as nat + 1) % n == m.selected) by (nonlinear_arith)
                requires
                    0 < m.selected < n,
            ;
        }
        if m.selected + 1 == n {
            assert((m.selected + 1) % n == 0) by (nonlinear_arith)
                requires
                    m.selected + 1 == n,
            ;
        } else {
            assert((m.selected + 1) % n == m.selected + 1) by (nonlinear_arith)
                requires
                    m.selected + 1 < n,
            ;
        }
    }
    assert(select_next_model(p) =~= m);
    assert(select_previous_model(q) =~= m);
}

/// Outside filter editing, `q` quits and `r` asks for a rescan with the state left as
/// it is; Tab moves to the next view (dashboard, explorer, report, dashboard) and `1`,
/// `2`, `3` open the dashboard, the explorer and the report view, changing nothing else.
pub proof fn law_view_keys(m: AppModel)
    requires
        !m.editing_filter,
    ensures
        key_transition(m, KeyCode::Char('q')) == (m, KeyAction::Quit),
        key_transition(m, KeyCode::Char('r')) == (m, KeyAction::Rescan),
        key_transition(m, KeyCode::Tab) == ((AppModel {
            view: match m.view {
                AppView::Dashboard => AppView::Explorer,
                AppView::Explorer => AppView::Report,
                AppView::Report => AppView::Dashboard,
            },
            ..m
        }), KeyAction::Continue),
        key_transition(m, KeyCode::Char('1')) == ((AppModel { view: AppView::Dashboard, ..m }), KeyAction::Continue),
        key_transition(m, KeyCode::Char('2')) == ((AppModel { view: AppView::Explorer, ..m }), KeyAction::Continue),
        key_transition(m, KeyCode::Char('3')) == ((AppModel { view: AppView::Report, ..m }), KeyAction::Continue),
{
}

/// In the report view, outside filter editing, Right moves to the next export format
/// (JSON, Markdown, HTML, CSV, JSON) and Left to the previous one; `l` switches language
/// details, `f` and Space switch file details (turning language details on with them),
/// and `e` asks for the export with the state left as it is.
pub proof fn law_report_view_keys(m: AppModel)
    requires
        m.view == AppView::Report,
        !m.editing_filter,
    ensures
        key_transition(m, KeyCode::Right) == ((AppModel {
            format: match m.format {
                ReportFormat::Json => ReportFormat::Markdown,
                ReportFormat::Markdown => ReportFormat::Html,
                ReportFormat::Html => ReportFormat::Csv,
                ReportFormat::Csv => ReportFormat::Json,
            },
            ..m
        }), KeyAction::Continue),
        key_transition(m, KeyCode::Left) == ((AppModel {
            format: match m.format {
                ReportFormat::Json => ReportFormat::Csv,
                ReportFormat::Markdown => ReportFormat::Json,
                ReportFormat::Html => ReportFormat::Markdown,
                ReportFormat::Csv => ReportFormat::Html,
            },
            ..m
        }), KeyAction::Continue),
        key_transition(m, KeyCode::Char('l')) == ((AppModel { include_languages: !m.include_languages, ..m }), KeyAction::Continue),
        key_transition(m, KeyCode::Char('f')) == ((AppModel {
            include_files: !m.include_files,
            include_languages: !m.include_files || m.include_languages,
            ..m
        }), KeyAction::Continue),
        key_transition(m, KeyCode::Char(' ')) == key_transition(m, KeyCode::Char('f')),
        key_transition(m, KeyCode::Char('e')) == (m, KeyAction::Export),
{
}

/// While the explorer filter is edited, every key goes to the filter: Enter and Esc end
/// the editing, Backspace deletes the last character, a character key (`q` included)
/// is typed; editing the text selects the first listed language, and the UI goes on.
pub proof fn law_filter_editing_keys(m: AppModel, c: char)
    requires
        m.editing_filter,
    ensures
        key_transition(m, KeyCode::Enter) == ((AppModel { editing_filter: false, ..m }), KeyAction::Continue),
        key_transition(m, KeyCode::Esc) == ((AppModel { editing_filter: false, ..m }), KeyAction::Continue),
        key_transition(m, KeyCode::Backspace) == ((AppModel {
            filter: m.filter.take(if m.filter.len() == 0 { 0 } else { m.filter.len() - 1 }),
            selected: 0,
            ..m
        }), KeyAction::Continue),
        key_transition(m, KeyCode::Char(c)) == ((AppModel { filter: m.filter.push(c), selected: 0, ..m }), KeyAction::Continue),
{
    if m.filter.len() == 0 {
        assert(m.filter.take(0) =~= m.filter);
    } else {
        assert(m.filter.take(m.filter.len() - 1) =~= m.filter.drop_last());
    }
}

/// In the explorer, while the filter is not being edited, the Down key selects the next
/// listed language and the Up key the previous one, wrapping around at the ends of the
/// list; nothing else changes and the UI goes on.
pub proof fn law_explorer_arrow_keys(m: AppModel)
    requires
        m.view == AppView::Explorer,
        !m.editing_filter,
    ensures
        key_transition(m, KeyCode::Down).1 == KeyAction::Continue,
        key_transition(m, KeyCode::Up).1 == KeyAction::Continue,
        key_transition(m, KeyCode::Down).0 == (AppModel { selected: key_transition(m, KeyCode::Down).0.selected, ..m }),
        key_transition(m, KeyCode::Up).0 == (AppModel { selected: key_transition(m, KeyCode::Up).0.selected, ..m }),
        m.selected + 1 < m.shown().len() ==> key_transition(m, KeyCode::Down).0.selected == m.selected + 1,
        m.selected + 1 == m.shown().len() ==> key_transition(m, KeyCode::Down).0.selected == 0,
        m.shown().len() == 0 ==> key_transition(m, KeyCode::Down).0.selected == 0,
        0 < m.selected && 0 < m.shown().len() ==> key_transition(m, KeyCode::Up).0.selected == m.selected - 1,
        m.selected == 0 && 0 < m.shown().len() ==> key_transition(m, KeyCode::Up).0.selected == m.shown().len() - 1,
        m.shown().len() == 0 ==> key_transition(m, KeyCode::Up).0.selected == 0,
{
    let n = m.shown().len();
    if m.selected + 1 < n {
        assert((m.selected + 1) % n == m.selected + 1) by (nonlinear_arith)
            requires
                m.selected + 1 < n,
        ;
    }
    if m.selected + 1 == n {
        assert((m.selected + 1) % n == 0) by (nonlinear_arith)
            requires
                m.selected + 1 == n,
        ;
    }
}

/// Each switch of a scan is read from the setting of its own name: without
/// `--ignore-blank` blank lines are counted as `[scan] include_blank_lines` says, and
/// without `--ignore-comments` comments are counted as `[scan] include_comments` says,
/// each on where the configuration leaves it unset; either flag turns its switch off.
pub proof fn law_scan_switches_follow_their_settings(
    options: ScanOptions,
    flags: ScanFlags,
    config: ProjectConfig,
    config_file_name: Option<Seq<char>>,
)
    requires
        is_scan_options(options, flags, config, config_file_name),
    ensures
        flags.ignore_blank ==> !options.include_blank_lines,
        flags.ignore_comments ==> !options.include_comments,
        !flags.ignore_blank ==> options.include_blank_lines == (match config.scan {
            Some(s) => match s.include_blank_lines {
                Some(b) => b,
                None => true,
            },
            None => true,
        }),
        !flags.ignore_comments ==> options.include_comments == (match config.scan {
            Some(s) => match s.include_comments {
                Some(b) => b,
                None => true,
            },
            None => true,
        }),
{
}

/// HTML-escaped text holds no `<`, `>`, `"` or `'`: what it holds is shown as text.
pub proof fn law_html_escape_leaves_no_markup(s: Seq<char>)
    ensures
        forall|k: int|
            0 <= k < html_escaped(s).len() ==> {
                let c = #[trigger] html_escaped(s)[k];
                c != '<' && c != '>' && c != '"' && c != '\''
            },
    decreases s.len(),
{
    if s.len() > 0 {
        law_html_escape_leaves_no_markup(s.drop_last());
        let c = s.last();
        reveal_strlit("&amp;");
        reveal_strlit("&lt;");
        reveal_strlit("&gt;");
        reveal_strlit("&quot;");
        reveal_strlit("&#39;");
        let tail = html_char(c);
        assert forall|k: int| 0 <= k < tail.len() implies {
            let d = #[trigger] tail[k];
            d != '<' && d != '>' && d != '"' && d != '\''
        } by {}
        let prev = html_escaped(s.drop_last());
        assert(html_escaped(s) == prev + tail);
        assert forall|k: int| 0 <= k < html_escaped(s).len() implies {
            let d = #[trigger] html_escaped(s)[k];
            d != '<' && d != '>' && d != '"' && d != '\''
        } by {
            if k < prev.len() {
                assert(html_escaped(s)[k] == prev[k]);
            } else {
                assert(html_escaped(s)[k] == tail[k - prev.len()]);
            }
        }
    }
}

/// The explorer lists exactly the languages that the filter matches: each listed
/// language is one of the report's and matches the filter, and each of the report's
/// languages that matches is listed.
pub proof fn law_filter_lists_exactly_the_matches(languages: Seq<LanguageStat>, filter: Seq<char>)
    ensures
        forall|k: int|
            0 <= k < shown_languages(languages, filter).len() ==> language_shown(
                #[trigger] shown_languages(languages, filter)[k],
                filter,
            ) && languages.contains(shown_languages(languages, filter)[k]),
        forall|i: int|
            0 <= i < languages.len() && language_shown(#[trigger] languages[i], filter) ==> shown_languages(
                languages,
                filter,
            ).contains(languages[i]),
    decreases languages.len(),
{
    if languages.len() > 0 {
        let rest = languages.drop_last();
        law_filter_lists_exactly_the_matches(rest, filter);
        let shown = shown_languages(languages, filter);
        let before = shown_languages(rest, filter);
        assert forall|k: int| 0 <= k < shown.len() implies language_shown(#[trigger] shown[k], filter)
            && languages.contains(shown[k]) by {
            if k < before.len() {
                assert(shown[k] == before[k]);
                assert(rest.contains(before[k]));
                let j = choose|j: int| 0 <= j < rest.len() && rest[j] == before[k];
                assert(languages[j] == rest[j]);
            } else {
                assert(shown[k] == languages.last());
                assert(languages[languages.len() - 1] == languages.last());
            }
        }
        assert forall|i: int| 0 <= i < languages.len() && language_shown(#[trigger] languages[i], filter) implies shown.contains(
            languages[i],
        ) by {
            if i < languages.len() - 1 {
                assert(rest[i] == languages[i]);
                assert(before.contains(rest[i]));
                let k = choose|k: int| 0 <= k < before.len() && before[k] == rest[i];
                assert(shown[k] == before[k]);
            } else {
                assert(shown[shown.len() - 1] == languages.last());
            }
        }
    }
}

/// Text without `&`, `<`, `>`, `"` or `'` is left as it is by HTML escaping.
pub proof fn law_html_escape_keeps_plain_text(s: Seq<char>)
    requires
        forall|k: int|
            0 <= k < s.len() ==> {
                let c = #[trigger] s[k];
                c != '&' && c != '<' && c != '>' && c != '"' && c != '\''
            },
    ensures
        html_escaped(s) == s,
    decreases s.len(),
{
    if s.len() > 0 {
        assert(s[s.len() - 1] == s.last());
        law_html_escape_keeps_plain_text(s.drop_last());
        assert(s.drop_last().push(s.last()) =~= s);
        assert(html_escaped(s) =~= s.drop_last() + seq![s.last()]);
    }
}

/// HTML escaping can be undone: reading the escaped text back gives the text.
pub proof fn law_html_escape_undone(s: Seq<char>)
    ensures
        html_unescaped(html_escaped(s)) == s,
    decreases s.len(),
{
    if s.len() > 0 {
        lemma_escaped_front(s);
        law_html_escape_undone(s.drop_first());
        lemma_unescape_char(s[0], html_escaped(s.drop_first()));
        assert(seq![s[0]] + s.drop_first() =~= s);
    }
}

/// Escaping works from the front too: the first character's entity, then the rest.
proof fn lemma_escaped_front(s: Seq<char>)
    requires
        s.len() > 0,
    ensures
        html_escaped(s) == html_char(s[0]) + html_escaped(s.drop_first()),
    decreases s.len(),
{
    if s.len() == 1 {
        assert(s.drop_last() =~= Seq::<char>::empty());
        assert(s.drop_first() =~= Seq::<char>::empty());
        assert(html_escaped(s.drop_last()) == Seq::<char>::empty());
        assert(s.last() == s[0]);
        assert(html_escaped(s) =~= html_char(s[0]));
        assert(html_char(s[0]) + html_escaped(s.drop_first()) =~= html_char(s[0]));
    } else {
        let d = s.drop_last();
        lemma_escaped_front(d);
        assert(d.drop_first() =~= s.drop_first().drop_last());
        assert(s.drop_first().last() == s.last());
        assert(d[0] == s[0]);
        assert(html_escaped(s.drop_first()) == html_escaped(s.drop_first().drop_last()) + html_char(s.drop_first().last()));
        assert(html_escaped(s) =~= html_char(s[0]) + html_escaped(s.drop_first()));
    }
}

/// Reading back the entity of one character gives that character.
proof fn lemma_unescape_char(c: char, rest: Seq<char>)
    ensures
        html_unescaped(html_char(c) + rest) == seq![c] + html_unescaped(rest),
{
    reveal_strlit("&amp;");
    reveal_strlit("&lt;");
    reveal_strlit("&gt;");
    reveal_strlit("&quot;");
    reveal_strlit("&#39;");
    let t = html_char(c) + rest;
    let h = html_char(c);
    assert(t.take(h.len() as int) =~= h);
    assert(t.skip(h.len() as int) =~= rest);
    if c == '&' {
        assert(h =~= seq!['&', 'a', 'm', 'p', ';']);
    } else if c == '<' {
        assert(h =~= seq!['&', 'l', 't', ';']);
        assert(t[1] == 'l');
        assert(t.len() >= 5 ==> t.take(5)[1] != seq!['&', 'a', 'm', 'p', ';'][1]);
    } else if c == '>' {
        assert(h =~= seq!['&', 'g', 't', ';']);
        assert(t[1] == 'g');
        assert(t.len() >= 5 ==> t.take(5)[1] != seq!['&', 'a', 'm', 'p', ';'][1]);
        assert(t.take(4)[1] != seq!['&', 'l', 't', ';'][1]);
    } else if c == '"' {
        assert(h =~= seq!['&', 'q', 'u', 'o', 't', ';']);
        assert(t[1] == 'q');
        assert(t.take(5)[1] != seq!['&', 'a', 'm', 'p', ';'][1]);
        assert(t.take(4)[1] != seq!['&', 'l', 't', ';'][1]);
        assert(t.take(4)[1] != seq!['&', 'g', 't', ';'][1]);
    } else if c == '\'' {
        assert(h =~= seq!['&', '#', '3', '9', ';']);
        assert(t[1] == '#');
        assert(t.take(5)[1] != seq!['&', 'a', 'm', 'p', ';'][1]);
        assert(t.take(4)[1] != seq!['&', 'l', 't', ';'][1]);
        assert(t.take(4)[1] != seq!['&', 'g', 't', ';'][1]);
        assert(t.len() >= 6 ==> t.take(6)[1] != seq!['&', 'q', 'u', 'o', 't', ';'][1]);
    } else {
        assert(h =~= seq![c]);
        assert(t[0] == c);
        assert(t.len() >= 5 ==> t.take(5)[0] != '&');
        assert(t.len() >= 4 ==> t.take(4)[0] != '&');
        assert(t.len() >= 6 ==> t.take(6)[0] != '&');
        assert(t.skip(1) =~= rest);
    }
}

} // verus!
