//! The report model: what a scan counts, per file, per language and in total.
use vstd::prelude::*;
use vstd::std_specs::iter::IteratorSpec;
use crate::sort::{Ranked, precedes, is_index_permutation, listed, sort_ranked};
use crate::text::chars_of;
use crate::report::plain_path;

verus! {

/// What a scan counts.
#[derive(Debug, Clone, PartialEq, Eq)]
pub struct ScanOptions {
    pub include_blank_lines: bool,
    pub include_comments: bool,
    pub ignored_paths: Vec<String>,
}

impl Default for ScanOptions {
    /// Blank lines and comments are counted; nothing is ignored.
    fn default() -> (options: Self)
        ensures
            options.include_blank_lines,
            options.include_comments,
            options.ignored_paths@.len() == 0,
    {
        ScanOptions { include_blank_lines: true, include_comments: true, ignored_paths: Vec::new() }
    }
}

/// Totals of a whole scan.
#[derive(Debug, Clone, PartialEq, Eq)]
pub struct ScanSummary {
    pub root: String,
    pub files: usize,
    pub total_lines: usize,
    pub blank_lines: usize,
    pub comment_lines: usize,
    pub document_lines: usize,
    pub code_lines: usize,
}

/// The lines of a scan split into four categories.
#[derive(Debug, Clone, PartialEq, Eq)]
pub struct LineCategories {
    pub code: usize,
    pub comments: usize,
    pub documents: usize,
    pub blanks: usize,
}

/// Counts of one file.
#[derive(Debug, Clone, PartialEq, Eq)]
pub struct FileStat {
    pub path: String,
    pub total_lines: usize,
    pub blank_lines: usize,
    pub comment_lines: usize,
    pub document_lines: usize,
    pub code_lines: usize,
}

/// Counts of one language, with its files.
#[derive(Debug, Clone, PartialEq, Eq)]
pub struct LanguageStat {
    pub name: String,
    pub files: usize,
    pub total_lines: usize,
    pub blank_lines: usize,
    pub comment_lines: usize,
    pub document_lines: usize,
    pub code_lines: usize,
    pub is_document: bool,
    pub file_stats: Vec<FileStat>,
}

/// The result of a scan.
#[derive(Debug, Clone, PartialEq, Eq)]
pub struct ScanReport {
    pub summary: ScanSummary,
    pub categories: LineCategories,
    pub languages: Vec<LanguageStat>,
}

impl Ranked for LanguageStat {
    open spec fn rank(&self) -> int {
        self.total_lines as int
    }

    open spec fn label(&self) -> Seq<char> {
        self.name@
    }

    fn rank_exec(&self) -> (r: usize) {
        self.total_lines
    }

    fn label_chars(&self) -> (r: Vec<char>) {
        chars_of(self.name.as_str())
    }
}

/// How the line counter classifies a language, as far as documents are concerned.
#[derive(Debug, Clone, Copy, PartialEq, Eq, Structural)]
pub enum LanguageKind {
    Markdown,
    Text,
    Other,
}

/// The raw counts of one file, as the line counter reports them.
#[derive(Debug, Clone)]
pub struct FileCounts {
    pub path: String,
    pub blanks: usize,
    pub code: usize,
    pub comments: usize,
}

/// The raw counts of one language, as the line counter reports them.
#[derive(Debug, Clone)]
pub struct LanguageCounts {
    pub name: String,
    pub kind: LanguageKind,
    pub literate: bool,
    pub blanks: usize,
    pub code: usize,
    pub comments: usize,
    pub files: Vec<FileCounts>,
}

/// Literate languages, Markdown and plain text are documents.
pub open spec fn is_document_spec(kind: LanguageKind, literate: bool) -> bool {
    literate || kind == LanguageKind::Markdown || kind == LanguageKind::Text
}

/// Whether a language counts as documentation rather than code.
pub fn is_document_language(kind: LanguageKind, literate: bool) -> (r: bool)
    ensures
        r == is_document_spec(kind, literate),
{
    literate || kind == LanguageKind::Markdown || kind == LanguageKind::Text
}

/// `s` summed over `f`.
pub open spec fn sum_of<T>(s: Seq<T>, f: spec_fn(T) -> nat) -> nat
    decreases s.len(),
{
    if s.len() == 0 {
        0
    } else {
        sum_of(s.drop_last(), f) + f(s.last())
    }
}

pub proof fn lemma_sum_step<T>(s: Seq<T>, f: spec_fn(T) -> nat, i: int)
    requires
        0 <= i < s.len(),
    ensures
        sum_of(s.take(i + 1), f) == sum_of(s.take(i), f) + f(s[i]),
{
    assert(s.take(i + 1).drop_last() =~= s.take(i));
}

pub proof fn lemma_sum_prefix_le<T>(s: Seq<T>, f: spec_fn(T) -> nat, i: int)
    requires
        0 <= i <= s.len(),
    ensures
        sum_of(s.take(i), f) <= sum_of(s, f),
        i < s.len() ==> sum_of(s.take(i), f) + f(s[i]) <= sum_of(s, f),
    decreases s.len() - i,
{
    if i == s.len() {
        assert(s.take(i) =~= s);
    } else {
        lemma_sum_step(s, f, i);
        lemma_sum_prefix_le(s, f, i + 1);
    }
}

pub proof fn lemma_sum_all<T>(s: Seq<T>, f: spec_fn(T) -> nat)
    ensures
        sum_of(s.take(s.len() as int), f) == sum_of(s, f),
{
    assert(s.take(s.len() as int) =~= s);
}

/// Lines of a file, whatever their kind.
pub open spec fn file_lines(f: FileCounts) -> nat {
    (f.blanks + f.code + f.comments) as nat
}

/// The counts of `stat` are those that `counts` gives, for a file of a language that
/// is a document when `is_document`.
pub open spec fn file_stat_matches(stat: FileStat, counts: FileCounts, is_document: bool, options: ScanOptions) -> bool {
    &&& stat.path@ == counts.path@
    &&& stat.total_lines == file_lines(counts)
    &&& stat.blank_lines == (if options.include_blank_lines { counts.blanks } else { 0 })
    &&& stat.comment_lines == (if options.include_comments && !is_document { counts.comments } else { 0 })
    &&& stat.document_lines == (if is_document { counts.code + counts.comments } else { 0 })
    &&& stat.code_lines == (if is_document { 0 } else { counts.code })
}

/// The counts of one file of a language.
pub fn file_stat_from_report(report: &FileCounts, is_document: bool, options: &ScanOptions) -> (stat: FileStat)
    requires
        file_lines(*report) <= usize::MAX,
    ensures
        file_stat_matches(stat, *report, is_document, *options),
{
    let document_lines = if is_document { report.code + report.comments } else { 0 };
    let code_lines = if is_document { 0 } else { report.code };
    let comment_lines = if is_document { 0 } else { report.comments };
    let blank_lines = if options.include_blank_lines { report.blanks } else { 0 };
    FileStat {
        path: report.path.clone(),
        total_lines: report.blanks + report.code + report.comments,
        blank_lines,
        comment_lines: if options.include_comments { comment_lines } else { 0 },
        document_lines,
        code_lines,
    }
}

/// Whether a language's raw counts are a document's.
pub open spec fn counts_are_document(l: LanguageCounts) -> bool {
    is_document_spec(l.kind, l.literate)
}

pub open spec fn doc_lines_of(l: LanguageCounts) -> nat {
    if counts_are_document(l) { (l.code + l.comments) as nat } else { 0 }
}

pub open spec fn code_lines_of(l: LanguageCounts) -> nat {
    if counts_are_document(l) { 0 } else { l.code as nat }
}

pub open spec fn comment_lines_of(l: LanguageCounts) -> nat {
    if counts_are_document(l) { 0 } else { l.comments as nat }
}

pub open spec fn blank_lines_of(l: LanguageCounts) -> nat {
    l.blanks as nat
}

pub open spec fn file_count_of(l: LanguageCounts) -> nat {
    l.files@.len()
}

/// All lines of a language: blanks, comments, documents and code.
pub open spec fn lines_of(l: LanguageCounts) -> nat {
    l.blanks as nat + comment_lines_of(l) + doc_lines_of(l) + code_lines_of(l)
}

/// Every file of `l` has a path of one kind that `comparable_path` describes.
pub open spec fn files_of_one_kind(l: LanguageCounts, dot: bool) -> bool {
    forall|j: int| 0 <= j < l.files@.len() ==> comparable_path(#[trigger] l.files@[j].path@, dot)
}

/// `stats` holds one entry per file of `l`, ordered by total lines, largest first; where
/// the paths are of one kind that `comparable_path` describes (such as all plain, or all
/// beginning with `./`), files of equal size stand in path order.
pub open spec fn file_stats_match(stats: Seq<FileStat>, l: LanguageCounts, options: ScanOptions) -> bool {
    exists|order: Seq<int>|
        {
            &&& is_index_permutation(order, l.files@.len())
            &&& stats.len() == l.files@.len()
            &&& forall|k: int| 0 <= k < stats.len() ==> #[trigger] file_stat_matches(
                stats[k],
                l.files@[order[k]],
                counts_are_document(l),
                options,
            )
            &&& forall|a: int, b: int| 0 <= a < b < stats.len() ==> #[trigger] stats[a].total_lines >= #[trigger] stats[b].total_lines
            &&& (files_of_one_kind(l, false) || files_of_one_kind(l, true)) ==> ties_by_path(stats)
        }
}

/// The entry of a report for language `l`.
pub open spec fn language_stat_matches(stat: LanguageStat, l: LanguageCounts, options: ScanOptions) -> bool {
    &&& stat.name@ == l.name@
    &&& stat.files == l.files@.len()
    &&& stat.total_lines == lines_of(l)
    &&& stat.blank_lines == (if options.include_blank_lines { l.blanks } else { 0 })
    &&& stat.comment_lines == (if options.include_comments { comment_lines_of(l) } else { 0 })
    &&& stat.document_lines == doc_lines_of(l)
    &&& stat.code_lines == code_lines_of(l)
    &&& stat.is_document == counts_are_document(l)
    &&& file_stats_match(stat.file_stats@, l, options)
}

/// The rank of a character in the order of plain paths: `/`, which ends a component,
/// below every other character.
pub open spec fn path_char_rank(c: char) -> int {
    if c == '/' { -1 } else { c as int }
}

/// The order of plain paths: component by component, each component by code point, a
/// component before any longer one it begins, and a root before any component. That is
/// the lexicographic order of the text with `/` below every other character.
pub open spec fn path_order_lt(a: Seq<char>, b: Seq<char>) -> bool
    decreases a.len(),
{
    if a.len() == 0 {
        b.len() > 0
    } else if b.len() == 0 {
        false
    } else if a[0] != b[0] {
        path_char_rank(a[0]) < path_char_rank(b[0])
    } else {
        path_order_lt(a.drop_first(), b.drop_first())
    }
}

/// `path_order_lt` is irreflexive.
pub proof fn lemma_path_order_irreflexive(a: Seq<char>)
    ensures
        !path_order_lt(a, a),
    decreases a.len(),
{
    if a.len() > 0 {
        lemma_path_order_irreflexive(a.drop_first());
    }
}

/// `path_order_lt` is transitive.
pub proof fn lemma_path_order_transitive(a: Seq<char>, b: Seq<char>, c: Seq<char>)
    requires
        path_order_lt(a, b),
        path_order_lt(b, c),
    ensures
        path_order_lt(a, c),
    decreases a.len(),
{
    if a.len() > 0 && b.len() > 0 && c.len() > 0 {
        if a[0] == b[0] && b[0] == c[0] {
            lemma_path_order_transitive(a.drop_first(), b.drop_first(), c.drop_first());
        }
    }
}

/// `p` is a plain path (`dot` false), or a plain relative path after `./` (`dot` true):
/// paths of one such kind are split by every platform into the same components at each
/// `/`, those of the second kind all beginning with the current directory.
pub open spec fn comparable_path(p: Seq<char>, dot: bool) -> bool {
    if dot {
        p.len() > 2 && p[0] == '.' && p[1] == '/' && p[2] != '/' && plain_path(p.skip(2))
    } else {
        plain_path(p)
    }
}

/// Paths compared as `std::path::Path` compares them. Its documentation orders paths by
/// their components; for two paths of one kind that `comparable_path` describes, which
/// every platform splits into the same components at each `/`, that is
/// `path_order_lt`. For other paths nothing is stated: how they split into components
/// depends on the platform.
#[verifier::external_body]
fn path_lt(a: &str, b: &str) -> (r: bool)
    ensures
        (comparable_path(a@, false) && comparable_path(b@, false)) || (comparable_path(a@, true) && comparable_path(
            b@,
            true,
        )) ==> r == path_order_lt(a@, b@),
{
    std::path::Path::new(a) < std::path::Path::new(b)
}

/// Every entry of `items` has a path of one kind that `comparable_path` describes.
pub open spec fn paths_of_one_kind(items: Seq<FileStat>, dot: bool) -> bool {
    forall|k: int| 0 <= k < items.len() ==> comparable_path(#[trigger] items[k].path@, dot)
}

/// Entries of equal size stand in path order: none is after an entry of as many lines
/// whose path comes after its own.
pub open spec fn ties_by_path(out: Seq<FileStat>) -> bool {
    forall|a: int, b: int|
        0 <= a < b < out.len() && (#[trigger] out[a]).total_lines == (#[trigger] out[b]).total_lines ==> !path_order_lt(
            out[b].path@,
            out[a].path@,
        )
}

/// Orders file entries by total lines, largest first; entries of equal size are ordered
/// by path (in `path_order_lt` order, where all paths are of one kind that
/// `comparable_path` describes).
fn sort_file_stats(items: Vec<FileStat>) -> (out: Vec<FileStat>)
    ensures
        exists|order: Seq<int>|
            {
                &&& is_index_permutation(order, items@.len())
                &&& out@.len() == items@.len()
                &&& forall|k: int| 0 <= k < out@.len() ==> #[trigger] out@[k] == items@[order[k]]
                &&& forall|a: int, b: int| 0 <= a < b < out@.len() ==> #[trigger] out@[a].total_lines >= #[trigger] out@[b].total_lines
            },
        (paths_of_one_kind(items@, false) || paths_of_one_kind(items@, true)) ==> ties_by_path(out@),
{
    let ghost input = items@;
    let n = items.len();
    let mut out: Vec<FileStat> = Vec::new();
    let ghost mut order: Seq<int> = Seq::empty();
    let mut i: usize = 0;
    for item in it: items
        invariant
            n == input.len(),
            it.seq() == input,
            i == it.index(),
            out@.len() == i,
            order.len() == i,
            forall|k: int| 0 <= k < i ==> 0 <= #[trigger] order[k] < i,
            forall|a: int, b: int| 0 <= a < b < i ==> order[a] != order[b],
            forall|m: int| 0 <= m < i ==> #[trigger] listed(order, i as nat, m),
            forall|k: int| 0 <= k < i ==> #[trigger] out@[k] == input[order[k]],
            forall|a: int, b: int| 0 <= a < b < i ==> #[trigger] out@[a].total_lines >= #[trigger] out@[b].total_lines,
            (paths_of_one_kind(input, false) || paths_of_one_kind(input, true)) ==> ties_by_path(out@),
    {
        assert(i < n);
        let ghost dot = !paths_of_one_kind(input, false);
        let ghost plain = paths_of_one_kind(input, dot);
        proof {
            if plain {
                assert(item == input[i as int]);
                assert(comparable_path(input[i as int].path@, dot));
                assert forall|k: int| 0 <= k < i implies comparable_path(#[trigger] out@[k].path@, dot) by {
                    assert(out@[k] == input[order[k]]);
                    assert(comparable_path(input[order[k]].path@, dot));
                }
            }
        }
        let mut p: usize = 0;
        let mut placed = false;
        while p < out.len() && !placed
            invariant
                out@.len() == i,
                p <= i,
                forall|q: int| 0 <= q < p ==> out@[q].total_lines >= item.total_lines,
                plain ==> comparable_path(item.path@, dot),
                plain ==> forall|k: int| 0 <= k < i ==> comparable_path(#[trigger] out@[k].path@, dot),
                plain ==> forall|q: int|
                    0 <= q < p ==> (#[trigger] out@[q]).total_lines > item.total_lines || !path_order_lt(
                        item.path@,
                        out@[q].path@,
                    ),
                placed ==> p < i && item.total_lines >= out@[p as int].total_lines,
                placed && plain ==> item.total_lines > out@[p as int].total_lines || path_order_lt(
                    item.path@,
                    out@[p as int].path@,
                ),
            decreases i - p + (if placed { 0int } else { 1int }),
        {
            let other = &out[p];
            if item.total_lines > other.total_lines
                || (item.total_lines == other.total_lines && path_lt(item.path.as_str(), other.path.as_str())) {
                placed = true;
            } else {
                p = p + 1;
            }
        }
        let ghost old_out = out@;
        let ghost old_order = order;
        out.insert(p, item);
        proof {
            order = order.insert(p as int, i as int);
            assert forall|m: int| 0 <= m < i + 1 implies #[trigger] listed(order, (i + 1) as nat, m) by {
                if m == i {
                    assert(order[p as int] == m);
                } else {
                    assert(listed(old_order, i as nat, m));
                    let k = choose|k: int| 0 <= k < i && old_order[k] == m;
                    if k < p {
                        assert(order[k] == m);
                    } else {
                        assert(order[k + 1] == m);
                    }
                }
            }
            assert forall|k: int| 0 <= k < i + 1 implies #[trigger] out@[k] == input[order[k]] by {
                if k < p {
                    assert(out@[k] == old_out[k]);
                } else if k > p {
                    assert(out@[k] == old_out[k - 1]);
                }
            }
            assert forall|a: int, b: int| 0 <= a < b < i + 1 implies order[a] != order[b] by {
                if a < p && b > p {
                    assert(order[b] == old_order[b - 1]);
                } else if a > p {
                    assert(order[a] == old_order[a - 1]);
                    assert(order[b] == old_order[b - 1]);
                } else if a == p {
                    assert(order[b] == old_order[b - 1]);
                }
            }
            assert forall|k: int| 0 <= k < i + 1 implies 0 <= #[trigger] order[k] < i + 1 by {
                if k > p {
                    assert(order[k] == old_order[k - 1]);
                }
            }
            assert forall|a: int, b: int| 0 <= a < b < i + 1 implies #[trigger] out@[a].total_lines >= #[trigger] out@[b].total_lines by {
                if b < p {
                } else if b == p {
                } else if a < p {
                    assert(out@[b] == old_out[b - 1]);
                } else if a == p {
                    assert(out@[b] == old_out[b - 1]);
                    if b - 1 > p {
                        assert(old_out[p as int].total_lines >= old_out[b - 1].total_lines);
                    }
                } else {
                    assert(out@[a] == old_out[a - 1]);
                    assert(out@[b] == old_out[b - 1]);
                }
            }
            if plain {
                lemma_insert_keeps_ties(old_out, item, p as int, placed);
                assert(out@ =~= old_out.insert(p as int, item));
            }
        }
        i = i + 1;
    }
    proof {
        assert(is_index_permutation(order, input.len()));
    }
    out
}

/// Inserting an entry before the first one it goes before keeps entries of equal size in
/// path order.
proof fn lemma_insert_keeps_ties(old_out: Seq<FileStat>, item: FileStat, p: int, placed: bool)
    requires
        0 <= p <= old_out.len(),
        ties_by_path(old_out),
        forall|a: int, b: int| 0 <= a < b < old_out.len() ==> #[trigger] old_out[a].total_lines >= #[trigger] old_out[b].total_lines,
        forall|q: int| 0 <= q < p ==> old_out[q].total_lines >= item.total_lines,
        forall|q: int|
            0 <= q < p ==> (#[trigger] old_out[q]).total_lines > item.total_lines || !path_order_lt(
                item.path@,
                old_out[q].path@,
            ),
        !placed ==> p == old_out.len(),
        placed ==> p < old_out.len() && item.total_lines >= old_out[p].total_lines,
        placed ==> item.total_lines > old_out[p].total_lines || path_order_lt(item.path@, old_out[p].path@),
    ensures
        ties_by_path(old_out.insert(p, item)),
{
    let out = old_out.insert(p, item);
    assert forall|a: int, b: int|
        0 <= a < b < out.len() && (#[trigger] out[a]).total_lines == (#[trigger] out[b]).total_lines implies !path_order_lt(
        out[b].path@,
        out[a].path@,
    ) by {
        if b < p {
            assert(out[a] == old_out[a]);
            assert(out[b] == old_out[b]);
        } else if b == p {
            assert(out[a] == old_out[a]);
            assert(out[b] == item);
        } else if a < p {
            assert(out[a] == old_out[a]);
            assert(out[b] == old_out[b - 1]);
        } else if a == p {
            assert(out[a] == item);
            assert(out[b] == old_out[b - 1]);
            let r = old_out[b - 1];
            let q = old_out[p];
            if b - 1 > p {
                assert(q.total_lines >= r.total_lines);
            }
            if path_order_lt(r.path@, item.path@) {
                if b - 1 == p {
                    lemma_path_order_transitive(item.path@, r.path@, item.path@);
                    lemma_path_order_irreflexive(item.path@);
                } else {
                    assert(q.total_lines == r.total_lines);
                    assert(!path_order_lt(r.path@, q.path@));
                    lemma_path_order_transitive(r.path@, item.path@, q.path@);
                }
            }
        } else {
            assert(out[a] == old_out[a - 1]);
            assert(out[b] == old_out[b - 1]);
        }
    }
}

/// `lines_of` as a function value, for sums.
pub open spec fn lines_fn() -> spec_fn(LanguageCounts) -> nat {
    |l: LanguageCounts| lines_of(l)
}

pub open spec fn blanks_fn() -> spec_fn(LanguageCounts) -> nat {
    |l: LanguageCounts| blank_lines_of(l)
}

pub open spec fn comments_fn() -> spec_fn(LanguageCounts) -> nat {
    |l: LanguageCounts| comment_lines_of(l)
}

pub open spec fn documents_fn() -> spec_fn(LanguageCounts) -> nat {
    |l: LanguageCounts| doc_lines_of(l)
}

pub open spec fn code_fn() -> spec_fn(LanguageCounts) -> nat {
    |l: LanguageCounts| code_lines_of(l)
}

pub open spec fn files_fn() -> spec_fn(LanguageCounts) -> nat {
    |l: LanguageCounts| file_count_of(l)
}

/// The counts of a scan fit in `usize`: every file's lines, all lines together and the
/// number of files.
pub open spec fn counts_fit(languages: Seq<LanguageCounts>) -> bool {
    &&& sum_of(languages, lines_fn()) <= usize::MAX
    &&& sum_of(languages, files_fn()) <= usize::MAX
    &&& forall|i: int, j: int|
        0 <= i < languages.len() && 0 <= j < languages[i].files@.len() ==> file_lines(
            #[trigger] languages[i].files@[j],
        ) <= usize::MAX
}

/// The lines of one file, or `None` when they do not fit in `usize`.
fn file_lines_checked(f: &FileCounts) -> (lines: Option<usize>)
    ensures
        match lines {
            Some(n) => n == file_lines(*f),
            None => file_lines(*f) > usize::MAX,
        },
{
    match f.blanks.checked_add(f.code) {
        Some(a) => a.checked_add(f.comments),
        None => None,
    }
}

/// Whether every file of `l` has a line count that fits in `usize`.
fn files_fit(l: &LanguageCounts) -> (ok: bool)
    ensures
        ok == (forall|j: int| 0 <= j < l.files@.len() ==> file_lines(#[trigger] l.files@[j]) <= usize::MAX),
{
    let mut j: usize = 0;
    while j < l.files.len()
        invariant
            j <= l.files@.len(),
            forall|k: int| 0 <= k < j ==> file_lines(#[trigger] l.files@[k]) <= usize::MAX,
        decreases l.files@.len() - j,
    {
        if file_lines_checked(&l.files[j]).is_none() {
            return false;
        }
        j = j + 1;
    }
    true
}

/// Whether `scan_report_from_counts` can sum up `languages`: whether `counts_fit` holds.
pub fn counts_fit_check(languages: &Vec<LanguageCounts>) -> (ok: bool)
    ensures
        ok == counts_fit(languages@),
{
    let ghost ls = languages@;
    let mut lines: usize = 0;
    let mut files: usize = 0;
    let mut i: usize = 0;
    while i < languages.len()
        invariant
            ls == languages@,
            i <= ls.len(),
            lines == sum_of(ls.take(i as int), lines_fn()),
            files == sum_of(ls.take(i as int), files_fn()),
            forall|a: int, j: int|
                0 <= a < i && 0 <= j < ls[a].files@.len() ==> file_lines(#[trigger] ls[a].files@[j]) <= usize::MAX,
        decreases ls.len() - i,
    {
        let l = &languages[i];
        proof {
            lemma_sum_step(ls, lines_fn(), i as int);
            lemma_sum_step(ls, files_fn(), i as int);
            lemma_sum_prefix_le(ls, lines_fn(), i as int);
            lemma_sum_prefix_le(ls, files_fn(), i as int);
        }
        if !files_fit(l) {
            return false;
        }
        let own = match l.blanks.checked_add(l.code) {
            Some(a) => a.checked_add(l.comments),
            None => None,
        };
        let next_lines = match own {
            Some(n) => lines.checked_add(n),
            None => None,
        };
        let next_files = files.checked_add(l.files.len());
        match (next_lines, next_files) {
            (Some(a), Some(b)) => {
                lines = a;
                files = b;
            },
            _ => {
                return false;
            },
        }
        i = i + 1;
    }
    proof {
        lemma_sum_all(ls, lines_fn());
        lemma_sum_all(ls, files_fn());
    }
    true
}

/// The entry of a report for one language, with its files largest first (files of equal
/// size in path order, where their paths are of one kind that `comparable_path`
/// describes).
pub fn language_stat_from_counts(language: &LanguageCounts, options: &ScanOptions) -> (stat: LanguageStat)
    requires
        lines_of(*language) <= usize::MAX,
        forall|j: int| 0 <= j < language.files@.len() ==> file_lines(#[trigger] language.files@[j]) <= usize::MAX,
    ensures
        language_stat_matches(stat, *language, *options),
{
    let is_document = is_document_language(language.kind, language.literate);
    let document_lines = if is_document { language.code + language.comments } else { 0 };
    let code_lines = if is_document { 0 } else { language.code };
    let comment_lines = if is_document { 0 } else { language.comments };
    let mut file_stats: Vec<FileStat> = Vec::new();
    let mut j: usize = 0;
    while j < language.files.len()
        invariant
            j <= language.files@.len(),
            is_document == counts_are_document(*language),
            forall|k: int| 0 <= k < language.files@.len() ==> file_lines(#[trigger] language.files@[k]) <= usize::MAX,
            file_stats@.len() == j,
            forall|k: int| 0 <= k < j ==> #[trigger] file_stat_matches(file_stats@[k], language.files@[k], is_document, *options),
        decreases language.files@.len() - j,
    {
        let stat = file_stat_from_report(&language.files[j], is_document, options);
        file_stats.push(stat);
        j = j + 1;
    }
    let ghost unsorted = file_stats@;
    proof {
        assert forall|dot: bool| files_of_one_kind(*language, dot) implies paths_of_one_kind(unsorted, dot) by {
            assert forall|k: int| 0 <= k < unsorted.len() implies comparable_path(#[trigger] unsorted[k].path@, dot) by {
                assert(file_stat_matches(unsorted[k], language.files@[k], is_document, *options));
                assert(comparable_path(language.files@[k].path@, dot));
            }
        }
    }
    let sorted = sort_file_stats(file_stats);
    proof {
        let order = choose|order: Seq<int>|
            {
                &&& is_index_permutation(order, unsorted.len())
                &&& sorted@.len() == unsorted.len()
                &&& forall|k: int| 0 <= k < sorted@.len() ==> #[trigger] sorted@[k] == unsorted[order[k]]
                &&& forall|a: int, b: int| 0 <= a < b < sorted@.len() ==> #[trigger] sorted@[a].total_lines >= #[trigger] sorted@[b].total_lines
            };
        assert forall|k: int| 0 <= k < sorted@.len() implies #[trigger] file_stat_matches(
            sorted@[k],
            language.files@[order[k]],
            counts_are_document(*language),
            *options,
        ) by {
            assert(sorted@[k] == unsorted[order[k]]);
            assert(0 <= order[k] < unsorted.len());
        }
    }
    LanguageStat {
        name: language.name.clone(),
        files: language.files.len(),
        total_lines: language.blanks + comment_lines + document_lines + code_lines,
        blank_lines: if options.include_blank_lines { language.blanks } else { 0 },
        comment_lines: if options.include_comments { comment_lines } else { 0 },
        document_lines,
        code_lines,
        is_document,
        file_stats: sorted,
    }
}

/// `report` is what a scan of `root` gives when the line counter reports `languages`.
pub open spec fn is_report_of(report: ScanReport, root: Seq<char>, languages: Seq<LanguageCounts>, options: ScanOptions) -> bool {
    let blanks = sum_of(languages, blanks_fn());
    let comments = sum_of(languages, comments_fn());
    let documents = sum_of(languages, documents_fn());
    let code = sum_of(languages, code_fn());
    &&& report.summary.root@ == root
    &&& report.summary.files == sum_of(languages, files_fn())
    &&& report.summary.total_lines == sum_of(languages, lines_fn())
    &&& report.summary.blank_lines == (if options.include_blank_lines { blanks } else { 0 })
    &&& report.summary.comment_lines == (if options.include_comments { comments } else { 0 })
    &&& report.summary.document_lines == documents
    &&& report.summary.code_lines == code
    &&& report.categories.code == code
    &&& report.categories.documents == documents
    &&& report.categories.comments == (if options.include_comments { comments } else { 0 })
    &&& report.categories.blanks == (if options.include_blank_lines { blanks } else { 0 })
    &&& exists|order: Seq<int>|
        {
            &&& is_index_permutation(order, languages.len())
            &&& report.languages@.len() == languages.len()
            &&& forall|k: int| 0 <= k < languages.len() ==> #[trigger] language_stat_matches(
                report.languages@[k],
                languages[order[k]],
                options,
            )
            &&& forall|a: int, b: int| 0 <= a < b < languages.len() ==> #[trigger] precedes(
                report.languages@[a],
                order[a],
                report.languages@[b],
                order[b],
            )
        }
}

/// Builds the report of a scan of `root` from the counts of each language: totals over
/// all languages, the four line categories, and one entry per language, largest first,
/// then by name. Blank lines and comments are left out of the counts (though not out
/// of the totals) when `options` says so.
pub fn scan_report_from_counts(root: String, languages: Vec<LanguageCounts>, options: &ScanOptions) -> (report: ScanReport)
    requires
        counts_fit(languages@),
    ensures
        is_report_of(report, root@, languages@, *options),
{
    let ghost ls = languages@;
    let mut files: usize = 0;
    let mut blanks: usize = 0;
    let mut comments: usize = 0;
    let mut documents: usize = 0;
    let mut code: usize = 0;
    let mut stats: Vec<LanguageStat> = Vec::new();
    let mut i: usize = 0;
    while i < languages.len()
        invariant
            ls == languages@,
            i <= ls.len(),
            counts_fit(ls),
            files == sum_of(ls.take(i as int), files_fn()),
            blanks == sum_of(ls.take(i as int), blanks_fn()),
            comments == sum_of(ls.take(i as int), comments_fn()),
            documents == sum_of(ls.take(i as int), documents_fn()),
            code == sum_of(ls.take(i as int), code_fn()),
            blanks + comments + documents + code == sum_of(ls.take(i as int), lines_fn()),
            stats@.len() == i,
            forall|k: int| 0 <= k < i ==> #[trigger] language_stat_matches(stats@[k], ls[k], *options),
        decreases ls.len() - i,
    {
        let language = &languages[i];
        proof {
            lemma_sum_prefix_le(ls, lines_fn(), i as int);
            lemma_sum_prefix_le(ls, files_fn(), i as int);
            lemma_sum_step(ls, lines_fn(), i as int);
            lemma_sum_step(ls, files_fn(), i as int);
            lemma_sum_step(ls, blanks_fn(), i as int);
            lemma_sum_step(ls, comments_fn(), i as int);
            lemma_sum_step(ls, documents_fn(), i as int);
            lemma_sum_step(ls, code_fn(), i as int);
            assert(forall|j: int| 0 <= j < language.files@.len() ==> file_lines(#[trigger] language.files@[j]) <= usize::MAX) by {
                assert forall|j: int| 0 <= j < language.files@.len() implies file_lines(#[trigger] language.files@[j]) <= usize::MAX by {
                    assert(file_lines(ls[i as int].files@[j]) <= usize::MAX);
                }
            }
        }
        let stat = language_stat_from_counts(language, options);
        let is_document = stat.is_document;
        let document_lines = if is_document { language.code + language.comments } else { 0 };
        let code_lines = if is_document { 0 } else { language.code };
        let comment_lines = if is_document { 0 } else { language.comments };
        files = files + language.files.len();
        blanks = blanks + language.blanks;
        comments = comments + comment_lines;
        documents = documents + document_lines;
        code = code + code_lines;
        stats.push(stat);
        i = i + 1;
    }
    proof {
        lemma_sum_all(ls, files_fn());
        lemma_sum_all(ls, lines_fn());
        lemma_sum_all(ls, blanks_fn());
        lemma_sum_all(ls, comments_fn());
        lemma_sum_all(ls, documents_fn());
        lemma_sum_all(ls, code_fn());
    }
    let total_lines = blanks + comments + documents + code;
    let summary = ScanSummary {
        root,
        files,
        total_lines,
        blank_lines: if options.include_blank_lines { blanks } else { 0 },
        comment_lines: if options.include_comments { comments } else { 0 },
        document_lines: documents,
        code_lines: code,
    };
    let categories = LineCategories {
        code,
        comments: if options.include_comments { comments } else { 0 },
        documents,
        blanks: if options.include_blank_lines { blanks } else { 0 },
    };
    let ghost unsorted = stats@;
    let sorted = sort_ranked(stats);
    proof {
        let order = choose|order: Seq<int>|
            {
                &&& is_index_permutation(order, unsorted.len())
                &&& sorted@.len() == unsorted.len()
                &&& forall|k: int| 0 <= k < sorted@.len() ==> #[trigger] sorted@[k] == unsorted[order[k]]
                &&& forall|a: int, b: int|
                    0 <= a < b < sorted@.len() ==> #[trigger] precedes(
                        unsorted[order[a]],
                        order[a],
                        unsorted[order[b]],
                        order[b],
                    )
            };
        assert forall|k: int| 0 <= k < ls.len() implies #[trigger] language_stat_matches(
            sorted@[k],
            ls[order[k]],
            *options,
        ) by {
            assert(sorted@[k] == unsorted[order[k]]);
            assert(0 <= order[k] < unsorted.len());
        }
        assert forall|a: int, b: int| 0 <= a < b < ls.len() implies #[trigger] precedes(
            sorted@[a],
            order[a],
            sorted@[b],
            order[b],
        ) by {
            assert(sorted@[a] == unsorted[order[a]]);
            assert(sorted@[b] == unsorted[order[b]]);
            assert(precedes(unsorted[order[a]], order[a], unsorted[order[b]], order[b]));
        }
    }
    ScanReport { summary, categories, languages: sorted }
}

} // verus!
