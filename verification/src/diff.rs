//! Differences between two scan reports.
use vstd::prelude::*;
use crate::model::{ScanReport, ScanSummary, LanguageStat};
use crate::sort::{Ranked, precedes, is_index_permutation, listed, sort_ranked};
use vstd::std_specs::iter::IteratorSpec;
use crate::text::{chars_of, str_eq, lex_lt, lemma_lex_irreflexive};

verus! {

/// Change of each summary count between two scans.
#[derive(Debug, Clone, PartialEq, Eq)]
pub struct LineDelta {
    pub files: isize,
    pub total_lines: isize,
    pub blank_lines: isize,
    pub comment_lines: isize,
    pub document_lines: isize,
    pub code_lines: isize,
}

/// Change of one language's counts between two scans.
#[derive(Debug, Clone, PartialEq, Eq)]
pub struct LanguageDelta {
    pub name: String,
    pub files: isize,
    pub total_lines: isize,
    pub blank_lines: isize,
    pub comment_lines: isize,
    pub document_lines: isize,
    pub code_lines: isize,
}

/// The changes between two scans: of the totals, and of every language whose counts
/// changed.
#[derive(Debug, Clone, PartialEq, Eq)]
pub struct ScanReportDiff {
    pub before_root: String,
    pub after_root: String,
    pub summary: LineDelta,
    pub languages: Vec<LanguageDelta>,
}

/// `after - before`, for counts that fit in `isize`.
pub fn delta(before: usize, after: usize) -> (d: isize)
    requires
        before <= isize::MAX,
        after <= isize::MAX,
    ensures
        d == after - before,
{
    after as isize - before as isize
}

/// The summary counts of a scan fit in `isize`.
pub open spec fn summary_fits(s: ScanSummary) -> bool {
    &&& s.files <= isize::MAX
    &&& s.total_lines <= isize::MAX
    &&& s.blank_lines <= isize::MAX
    &&& s.comment_lines <= isize::MAX
    &&& s.document_lines <= isize::MAX
    &&& s.code_lines <= isize::MAX
}

/// Each count of `d` is `after`'s minus `before`'s.
pub open spec fn is_summary_delta(d: LineDelta, before: ScanSummary, after: ScanSummary) -> bool {
    &&& d.files == after.files - before.files
    &&& d.total_lines == after.total_lines - before.total_lines
    &&& d.blank_lines == after.blank_lines - before.blank_lines
    &&& d.comment_lines == after.comment_lines - before.comment_lines
    &&& d.document_lines == after.document_lines - before.document_lines
    &&& d.code_lines == after.code_lines - before.code_lines
}

impl LineDelta {
    /// The change of every summary count from `before` to `after`.
    pub fn between_summaries(before: &ScanSummary, after: &ScanSummary) -> (d: Self)
        requires
            summary_fits(*before),
            summary_fits(*after),
        ensures
            is_summary_delta(d, *before, *after),
    {
        LineDelta {
            files: delta(before.files, after.files),
            total_lines: delta(before.total_lines, after.total_lines),
            blank_lines: delta(before.blank_lines, after.blank_lines),
            comment_lines: delta(before.comment_lines, after.comment_lines),
            document_lines: delta(before.document_lines, after.document_lines),
            code_lines: delta(before.code_lines, after.code_lines),
        }
    }
}

pub open spec fn stat_files(l: LanguageStat) -> nat {
    l.files as nat
}

pub open spec fn stat_total(l: LanguageStat) -> nat {
    l.total_lines as nat
}

pub open spec fn stat_blanks(l: LanguageStat) -> nat {
    l.blank_lines as nat
}

pub open spec fn stat_comments(l: LanguageStat) -> nat {
    l.comment_lines as nat
}

pub open spec fn stat_documents(l: LanguageStat) -> nat {
    l.document_lines as nat
}

pub open spec fn stat_code(l: LanguageStat) -> nat {
    l.code_lines as nat
}

pub open spec fn f_files() -> spec_fn(LanguageStat) -> nat {
    |l: LanguageStat| stat_files(l)
}

pub open spec fn f_total() -> spec_fn(LanguageStat) -> nat {
    |l: LanguageStat| stat_total(l)
}

pub open spec fn f_blanks() -> spec_fn(LanguageStat) -> nat {
    |l: LanguageStat| stat_blanks(l)
}

pub open spec fn f_comments() -> spec_fn(LanguageStat) -> nat {
    |l: LanguageStat| stat_comments(l)
}

pub open spec fn f_documents() -> spec_fn(LanguageStat) -> nat {
    |l: LanguageStat| stat_documents(l)
}

pub open spec fn f_code() -> spec_fn(LanguageStat) -> nat {
    |l: LanguageStat| stat_code(l)
}

/// The sum of `f` over the entries of `languages` named `name`.
pub open spec fn name_sum(languages: Seq<LanguageStat>, name: Seq<char>, f: spec_fn(LanguageStat) -> nat) -> nat
    decreases languages.len(),
{
    if languages.len() == 0 {
        0
    } else {
        name_sum(languages.drop_last(), name, f) + (if languages.last().name@ == name {
            f(languages.last())
        } else {
            0
        })
    }
}

/// Each count of the entries named `name`, added together, fits in `isize`.
pub open spec fn name_fits(languages: Seq<LanguageStat>, name: Seq<char>) -> bool {
    &&& name_sum(languages, name, f_files()) <= isize::MAX
    &&& name_sum(languages, name, f_total()) <= isize::MAX
    &&& name_sum(languages, name, f_blanks()) <= isize::MAX
    &&& name_sum(languages, name, f_comments()) <= isize::MAX
    &&& name_sum(languages, name, f_documents()) <= isize::MAX
    &&& name_sum(languages, name, f_code()) <= isize::MAX
}

/// The counts of each language, its entries added together, fit in `isize`.
pub open spec fn languages_fit(languages: Seq<LanguageStat>) -> bool {
    forall|name: Seq<char>| #[trigger] has_language(languages, name) ==> name_fits(languages, name)
}

/// A count of a language entry.
#[derive(Clone, Copy)]
enum StatField {
    Files,
    Total,
    Blanks,
    Comments,
    Documents,
    Code,
}

spec fn field_fn(field: StatField) -> spec_fn(LanguageStat) -> nat {
    match field {
        StatField::Files => f_files(),
        StatField::Total => f_total(),
        StatField::Blanks => f_blanks(),
        StatField::Comments => f_comments(),
        StatField::Documents => f_documents(),
        StatField::Code => f_code(),
    }
}

fn field_value(l: &LanguageStat, field: StatField) -> (v: usize)
    ensures
        v as nat == field_fn(field)(*l),
{
    match field {
        StatField::Files => l.files,
        StatField::Total => l.total_lines,
        StatField::Blanks => l.blank_lines,
        StatField::Comments => l.comment_lines,
        StatField::Documents => l.document_lines,
        StatField::Code => l.code_lines,
    }
}

/// Whether the sum of one count over the entries of `languages` named `name` fits in
/// `isize`.
fn name_field_sum_fits(languages: &Vec<LanguageStat>, name: &str, field: StatField) -> (ok: bool)
    ensures
        ok == (name_sum(languages@, name@, field_fn(field)) <= isize::MAX),
{
    let ghost f = field_fn(field);
    let limit: usize = isize::MAX as usize;
    let mut total: usize = 0;
    let mut i: usize = 0;
    while i < languages.len()
        invariant
            i <= languages@.len(),
            f == field_fn(field),
            limit == isize::MAX,
            total == name_sum(languages@.take(i as int), name@, f),
            total <= limit,
        decreases languages@.len() - i,
    {
        proof {
            lemma_name_sum_step(languages@, name@, f, i as int);
            lemma_name_sum_prefix_le(languages@, name@, f, i as int + 1);
        }
        if str_eq(languages[i].name.as_str(), name) {
            let v = field_value(&languages[i], field);
            if v > limit - total {
                return false;
            }
            total = total + v;
        }
        i = i + 1;
    }
    proof {
        assert(languages@.take(languages@.len() as int) =~= languages@);
    }
    true
}

/// Whether two reports can be compared by `diff_reports`: every summary count, and the
/// sum of every count over the entries of each language name in each, fits in `isize`.
pub fn reports_fit_for_diff(before: &ScanReport, after: &ScanReport) -> (ok: bool)
    ensures
        ok == (summary_fits(before.summary) && summary_fits(after.summary) && languages_fit(before.languages@)
            && languages_fit(after.languages@)),
{
    summary_fits_exec(&before.summary) && summary_fits_exec(&after.summary) && languages_fit_exec(
        &before.languages,
    ) && languages_fit_exec(&after.languages)
}

fn summary_fits_exec(s: &ScanSummary) -> (ok: bool)
    ensures
        ok == summary_fits(*s),
{
    let limit: usize = isize::MAX as usize;
    s.files <= limit && s.total_lines <= limit && s.blank_lines <= limit && s.comment_lines <= limit
        && s.document_lines <= limit && s.code_lines <= limit
}

fn languages_fit_exec(languages: &Vec<LanguageStat>) -> (ok: bool)
    ensures
        ok == languages_fit(languages@),
{
    let mut i: usize = 0;
    while i < languages.len()
        invariant
            i <= languages@.len(),
            forall|k: int| 0 <= k < i ==> name_fits(languages@, #[trigger] languages@[k].name@),
        decreases languages@.len() - i,
    {
        let name = languages[i].name.as_str();
        let fits = name_field_sum_fits(languages, name, StatField::Files) && name_field_sum_fits(
            languages,
            name,
            StatField::Total,
        ) && name_field_sum_fits(languages, name, StatField::Blanks) && name_field_sum_fits(
            languages,
            name,
            StatField::Comments,
        ) && name_field_sum_fits(languages, name, StatField::Documents) && name_field_sum_fits(
            languages,
            name,
            StatField::Code,
        );
        if !fits {
            assert(has_language(languages@, languages@[i as int].name@));
            return false;
        }
        i = i + 1;
    }
    assert forall|name: Seq<char>| #[trigger] has_language(languages@, name) implies name_fits(languages@, name) by {
        let k = choose|k: int| 0 <= k < languages@.len() && #[trigger] languages@[k].name@ == name;
    }
    true
}

/// Some entry of `languages` is named `name`.
pub open spec fn has_language(languages: Seq<LanguageStat>, name: Seq<char>) -> bool {
    exists|i: int| 0 <= i < languages.len() && #[trigger] languages[i].name@ == name
}

/// The change of `f` for language `name`, summed over same-named entries.
pub open spec fn change(before: Seq<LanguageStat>, after: Seq<LanguageStat>, name: Seq<char>, f: spec_fn(LanguageStat) -> nat) -> int {
    name_sum(after, name, f) - name_sum(before, name, f)
}

/// Each count of `d` is the change of that count for the language `d` names.
pub open spec fn is_language_delta(d: LanguageDelta, before: Seq<LanguageStat>, after: Seq<LanguageStat>) -> bool {
    &&& d.files == change(before, after, d.name@, f_files())
    &&& d.total_lines == change(before, after, d.name@, f_total())
    &&& d.blank_lines == change(before, after, d.name@, f_blanks())
    &&& d.comment_lines == change(before, after, d.name@, f_comments())
    &&& d.document_lines == change(before, after, d.name@, f_documents())
    &&& d.code_lines == change(before, after, d.name@, f_code())
}

/// No count of language `name` changed.
pub open spec fn unchanged(before: Seq<LanguageStat>, after: Seq<LanguageStat>, name: Seq<char>) -> bool {
    &&& change(before, after, name, f_files()) == 0
    &&& change(before, after, name, f_total()) == 0
    &&& change(before, after, name, f_blanks()) == 0
    &&& change(before, after, name, f_comments()) == 0
    &&& change(before, after, name, f_documents()) == 0
    &&& change(before, after, name, f_code()) == 0
}

/// The magnitude of a change.
pub open spec fn magnitude(x: int) -> int {
    if x < 0 { -x } else { x }
}

/// `languages` lists, once each, every language of `before` or `after` whose counts
/// changed, with its changes, largest change of total lines first, then by name.
pub open spec fn is_language_changes(
    languages: Seq<LanguageDelta>,
    before: Seq<LanguageStat>,
    after: Seq<LanguageStat>,
) -> bool {
    &&& forall|k: int| 0 <= k < languages.len() ==> #[trigger] is_language_delta(languages[k], before, after)
    &&& forall|k: int| 0 <= k < languages.len() ==> !unchanged(before, after, #[trigger] languages[k].name@)
    &&& forall|k: int| 0 <= k < languages.len() ==> has_language(before, #[trigger] languages[k].name@) || has_language(after, languages[k].name@)
    &&& forall|name: Seq<char>|
        (has_language(before, name) || has_language(after, name)) && !unchanged(before, after, name) ==> exists|k: int|
            0 <= k < languages.len() && #[trigger] languages[k].name@ == name
    &&& forall|a: int, b: int|
        0 <= a < b < languages.len() ==> {
            ||| magnitude(#[trigger] languages[a].total_lines as int) > magnitude(#[trigger] languages[b].total_lines as int)
            ||| (magnitude(languages[a].total_lines as int) == magnitude(languages[b].total_lines as int) && lex_lt(
                languages[a].name@,
                languages[b].name@,
            ))
        }
}

/// The report of changes from `before` to `after`.
pub open spec fn is_report_diff(diff: ScanReportDiff, before: ScanReport, after: ScanReport) -> bool {
    &&& diff.before_root@ == before.summary.root@
    &&& diff.after_root@ == after.summary.root@
    &&& is_summary_delta(diff.summary, before.summary, after.summary)
    &&& is_language_changes(diff.languages@, before.languages@, after.languages@)
}

impl LanguageDelta {
    /// A delta for the language of `language` with every count zero.
    pub fn from_language(language: &LanguageStat) -> (d: Self)
        ensures
            d.name@ == language.name@,
            d.files == 0,
            d.total_lines == 0,
            d.blank_lines == 0,
            d.comment_lines == 0,
            d.document_lines == 0,
            d.code_lines == 0,
    {
        LanguageDelta {
            name: language.name.clone(),
            files: 0,
            total_lines: 0,
            blank_lines: 0,
            comment_lines: 0,
            document_lines: 0,
            code_lines: 0,
        }
    }

    /// Adds the counts of `language`.
    pub fn add_language(&mut self, language: &LanguageStat)
        requires
            old(self).files + language.files <= isize::MAX,
            old(self).total_lines + language.total_lines <= isize::MAX,
            old(self).blank_lines + language.blank_lines <= isize::MAX,
            old(self).comment_lines + language.comment_lines <= isize::MAX,
            old(self).document_lines + language.document_lines <= isize::MAX,
            old(self).code_lines + language.code_lines <= isize::MAX,
            old(self).files >= -isize::MAX,
            old(self).total_lines >= -isize::MAX,
            old(self).blank_lines >= -isize::MAX,
            old(self).comment_lines >= -isize::MAX,
            old(self).document_lines >= -isize::MAX,
            old(self).code_lines >= -isize::MAX,
            language.files <= isize::MAX,
            language.total_lines <= isize::MAX,
            language.blank_lines <= isize::MAX,
            language.comment_lines <= isize::MAX,
            language.document_lines <= isize::MAX,
            language.code_lines <= isize::MAX,
        ensures
            final(self).name == old(self).name,
            final(self).files == old(self).files + language.files,
            final(self).total_lines == old(self).total_lines + language.total_lines,
            final(self).blank_lines == old(self).blank_lines + language.blank_lines,
            final(self).comment_lines == old(self).comment_lines + language.comment_lines,
            final(self).document_lines == old(self).document_lines + language.document_lines,
            final(self).code_lines == old(self).code_lines + language.code_lines,
    {
        self.files = self.files + language.files as isize;
        self.total_lines = self.total_lines + language.total_lines as isize;
        self.blank_lines = self.blank_lines + language.blank_lines as isize;
        self.comment_lines = self.comment_lines + language.comment_lines as isize;
        self.document_lines = self.document_lines + language.document_lines as isize;
        self.code_lines = self.code_lines + language.code_lines as isize;
    }

    /// Subtracts the counts of `language`.
    pub fn subtract_language(&mut self, language: &LanguageStat)
        requires
            old(self).files - language.files >= -isize::MAX,
            old(self).total_lines - language.total_lines >= -isize::MAX,
            old(self).blank_lines - language.blank_lines >= -isize::MAX,
            old(self).comment_lines - language.comment_lines >= -isize::MAX,
            old(self).document_lines - language.document_lines >= -isize::MAX,
            old(self).code_lines - language.code_lines >= -isize::MAX,
            language.files <= isize::MAX,
            language.total_lines <= isize::MAX,
            language.blank_lines <= isize::MAX,
            language.comment_lines <= isize::MAX,
            language.document_lines <= isize::MAX,
            language.code_lines <= isize::MAX,
        ensures
            final(self).name == old(self).name,
            final(self).files == old(self).files - language.files,
            final(self).total_lines == old(self).total_lines - language.total_lines,
            final(self).blank_lines == old(self).blank_lines - language.blank_lines,
            final(self).comment_lines == old(self).comment_lines - language.comment_lines,
            final(self).document_lines == old(self).document_lines - language.document_lines,
            final(self).code_lines == old(self).code_lines - language.code_lines,
    {
        self.files = self.files - language.files as isize;
        self.total_lines = self.total_lines - language.total_lines as isize;
        self.blank_lines = self.blank_lines - language.blank_lines as isize;
        self.comment_lines = self.comment_lines - language.comment_lines as isize;
        self.document_lines = self.document_lines - language.document_lines as isize;
        self.code_lines = self.code_lines - language.code_lines as isize;
    }

    /// Every count is zero.
    pub open spec fn is_zero_spec(&self) -> bool {
        self.files == 0 && self.total_lines == 0 && self.blank_lines == 0 && self.comment_lines == 0
            && self.document_lines == 0 && self.code_lines == 0
    }

    /// Whether every count is zero.
    pub fn is_zero(&self) -> (r: bool)
        ensures
            r == self.is_zero_spec(),
    {
        self.files == 0 && self.total_lines == 0 && self.blank_lines == 0 && self.comment_lines == 0
            && self.document_lines == 0 && self.code_lines == 0
    }
}

impl Ranked for LanguageDelta {
    open spec fn rank(&self) -> int {
        magnitude(self.total_lines as int)
    }

    open spec fn label(&self) -> Seq<char> {
        self.name@
    }

    fn rank_exec(&self) -> (r: usize) {
        let t = self.total_lines;
        if t >= 0 {
            t as usize
        } else if t == isize::MIN {
            (isize::MAX as usize) + 1
        } else {
            (-t) as usize
        }
    }

    fn label_chars(&self) -> (r: Vec<char>) {
        chars_of(self.name.as_str())
    }
}

proof fn lemma_name_sum_step(s: Seq<LanguageStat>, name: Seq<char>, f: spec_fn(LanguageStat) -> nat, i: int)
    requires
        0 <= i < s.len(),
    ensures
        name_sum(s.take(i + 1), name, f) == name_sum(s.take(i), name, f) + (if s[i].name@ == name {
            f(s[i])
        } else {
            0
        }),
{
    assert(s.take(i + 1).drop_last() =~= s.take(i));
}

proof fn lemma_name_sum_absent(s: Seq<LanguageStat>, name: Seq<char>, f: spec_fn(LanguageStat) -> nat)
    requires
        !has_language(s, name),
    ensures
        name_sum(s, name, f) == 0,
    decreases s.len(),
{
    if s.len() > 0 {
        assert(!has_language(s.drop_last(), name)) by {
            if has_language(s.drop_last(), name) {
                let i = choose|i: int| 0 <= i < s.drop_last().len() && #[trigger] s.drop_last()[i].name@ == name;
                assert(s[i].name@ == name);
            }
        }
        assert(s.last().name@ != name) by {
            if s.last().name@ == name {
                assert(s[s.len() - 1].name@ == name);
            }
        }
        lemma_name_sum_absent(s.drop_last(), name, f);
    }
}

proof fn lemma_has_language_step(s: Seq<LanguageStat>, name: Seq<char>, i: int)
    requires
        0 <= i < s.len(),
    ensures
        has_language(s.take(i + 1), name) == (has_language(s.take(i), name) || s[i].name@ == name),
{
    if has_language(s.take(i + 1), name) {
        let k = choose|k: int| 0 <= k < s.take(i + 1).len() && #[trigger] s.take(i + 1)[k].name@ == name;
        if k < i {
            assert(s.take(i)[k].name@ == name);
        }
    }
    if has_language(s.take(i), name) {
        let k = choose|k: int| 0 <= k < s.take(i).len() && #[trigger] s.take(i)[k].name@ == name;
        assert(s.take(i + 1)[k].name@ == name);
    }
    if s[i].name@ == name {
        assert(s.take(i + 1)[i].name@ == name);
    }
}

proof fn lemma_steps(s: Seq<LanguageStat>, name: Seq<char>, i: int)
    requires
        0 <= i < s.len(),
    ensures
        forall|f: spec_fn(LanguageStat) -> nat|
            name_sum(s.take(i + 1), name, f) == #[trigger] name_sum(s.take(i), name, f) + (if s[i].name@ == name {
                f(s[i])
            } else {
                0
            }),
{
    assert forall|f: spec_fn(LanguageStat) -> nat|
        name_sum(s.take(i + 1), name, f) == #[trigger] name_sum(s.take(i), name, f) + (if s[i].name@ == name {
            f(s[i])
        } else {
            0
        }) by {
        lemma_name_sum_step(s, name, f, i);
    }
}

proof fn lemma_name_sum_prefix_le(s: Seq<LanguageStat>, name: Seq<char>, f: spec_fn(LanguageStat) -> nat, i: int)
    requires
        0 <= i <= s.len(),
    ensures
        name_sum(s.take(i), name, f) <= name_sum(s, name, f),
    decreases s.len() - i,
{
    if i == s.len() {
        assert(s.take(i) =~= s);
    } else {
        lemma_name_sum_step(s, name, f, i);
        lemma_name_sum_prefix_le(s, name, f, i + 1);
    }
}

/// Every count of the entries named `name` adds up within `isize`.
proof fn lemma_name_bound(s: Seq<LanguageStat>, name: Seq<char>)
    requires
        languages_fit(s),
    ensures
        name_fits(s, name),
{
    if !has_language(s, name) {
        lemma_name_sum_absent(s, name, f_files());
        lemma_name_sum_absent(s, name, f_total());
        lemma_name_sum_absent(s, name, f_blanks());
        lemma_name_sum_absent(s, name, f_comments());
        lemma_name_sum_absent(s, name, f_documents());
        lemma_name_sum_absent(s, name, f_code());
    }
}

proof fn lemma_prefix_bound(s: Seq<LanguageStat>, name: Seq<char>, f: spec_fn(LanguageStat) -> nat, i: int)
    requires
        0 <= i < s.len(),
        name_sum(s, name, f) <= isize::MAX,
        name_sum(s, s[i].name@, f) <= isize::MAX,
    ensures
        name_sum(s.take(i + 1), name, f) <= isize::MAX,
        f(s[i]) <= isize::MAX,
{
    lemma_name_sum_prefix_le(s, name, f, i + 1);
    lemma_name_sum_step(s, s[i].name@, f, i);
    lemma_name_sum_prefix_le(s, s[i].name@, f, i + 1);
}

proof fn lemma_bounds(s: Seq<LanguageStat>, name: Seq<char>, i: int)
    requires
        0 <= i < s.len(),
        languages_fit(s),
    ensures
        name_sum(s.take(i + 1), name, f_files()) <= isize::MAX,
        name_sum(s.take(i + 1), name, f_total()) <= isize::MAX,
        name_sum(s.take(i + 1), name, f_blanks()) <= isize::MAX,
        name_sum(s.take(i + 1), name, f_comments()) <= isize::MAX,
        name_sum(s.take(i + 1), name, f_documents()) <= isize::MAX,
        name_sum(s.take(i + 1), name, f_code()) <= isize::MAX,
        s[i].files <= isize::MAX,
        s[i].total_lines <= isize::MAX,
        s[i].blank_lines <= isize::MAX,
        s[i].comment_lines <= isize::MAX,
        s[i].document_lines <= isize::MAX,
        s[i].code_lines <= isize::MAX,
{
    lemma_name_bound(s, name);
    lemma_name_bound(s, s[i].name@);
    lemma_prefix_bound(s, name, f_files(), i);
    lemma_prefix_bound(s, name, f_total(), i);
    lemma_prefix_bound(s, name, f_blanks(), i);
    lemma_prefix_bound(s, name, f_comments(), i);
    lemma_prefix_bound(s, name, f_documents(), i);
    lemma_prefix_bound(s, name, f_code(), i);
}

/// The position of the delta named `name`, if there is one.
fn find_delta(deltas: &Vec<LanguageDelta>, name: &str) -> (r: Option<usize>)
    ensures
        r matches Some(p) ==> p < deltas@.len() && deltas@[p as int].name@ == name@,
        r is None ==> forall|k: int| 0 <= k < deltas@.len() ==> #[trigger] deltas@[k].name@ != name@,
{
    let mut k: usize = 0;
    while k < deltas.len()
        invariant
            k <= deltas@.len(),
            forall|q: int| 0 <= q < k ==> #[trigger] deltas@[q].name@ != name@,
        decreases deltas@.len() - k,
    {
        if str_eq(deltas[k].name.as_str(), name) {
            return Some(k);
        }
        k = k + 1;
    }
    None
}

/// Names of the entries of `deltas` differ.
pub open spec fn names_distinct(deltas: Seq<LanguageDelta>) -> bool {
    forall|a: int, b: int| 0 <= a < b < deltas.len() ==> deltas[a].name@ != deltas[b].name@
}

/// The working state of a diff: one entry per language seen so far, with the changes
/// counted so far.
pub open spec fn tallies(deltas: Seq<LanguageDelta>, before: Seq<LanguageStat>, after: Seq<LanguageStat>) -> bool {
    &&& names_distinct(deltas)
    &&& forall|k: int| 0 <= k < deltas.len() ==> #[trigger] is_language_delta(deltas[k], before, after)
    &&& forall|k: int| 0 <= k < deltas.len() ==> has_language(before, #[trigger] deltas[k].name@) || has_language(after, deltas[k].name@)
    &&& forall|name: Seq<char>|
        #![trigger has_language(before, name)]
        #![trigger has_language(after, name)]
        has_language(before, name) || has_language(after, name) ==> exists|k: int|
            0 <= k < deltas.len() && #[trigger] deltas[k].name@ == name
}

proof fn lemma_before_step(old_d: LanguageDelta, new_d: LanguageDelta, bs: Seq<LanguageStat>, i: int, nothing: Seq<LanguageStat>)
    requires
        0 <= i < bs.len(),
        nothing.len() == 0,
        is_language_delta(old_d, bs.take(i), nothing),
        new_d.name@ == old_d.name@,
        bs[i].name@ == old_d.name@ ==> {
            &&& new_d.files == old_d.files - bs[i].files
            &&& new_d.total_lines == old_d.total_lines - bs[i].total_lines
            &&& new_d.blank_lines == old_d.blank_lines - bs[i].blank_lines
            &&& new_d.comment_lines == old_d.comment_lines - bs[i].comment_lines
            &&& new_d.document_lines == old_d.document_lines - bs[i].document_lines
            &&& new_d.code_lines == old_d.code_lines - bs[i].code_lines
        },
        bs[i].name@ != old_d.name@ ==> new_d == old_d,
    ensures
        is_language_delta(new_d, bs.take(i + 1), nothing),
{
    let n = old_d.name@;
    lemma_name_sum_step(bs, n, f_files(), i);
    lemma_name_sum_step(bs, n, f_total(), i);
    lemma_name_sum_step(bs, n, f_blanks(), i);
    lemma_name_sum_step(bs, n, f_comments(), i);
    lemma_name_sum_step(bs, n, f_documents(), i);
    lemma_name_sum_step(bs, n, f_code(), i);
}

proof fn lemma_after_step(old_d: LanguageDelta, new_d: LanguageDelta, bs: Seq<LanguageStat>, als: Seq<LanguageStat>, j: int)
    requires
        0 <= j < als.len(),
        is_language_delta(old_d, bs, als.take(j)),
        new_d.name@ == old_d.name@,
        als[j].name@ == old_d.name@ ==> {
            &&& new_d.files == old_d.files + als[j].files
            &&& new_d.total_lines == old_d.total_lines + als[j].total_lines
            &&& new_d.blank_lines == old_d.blank_lines + als[j].blank_lines
            &&& new_d.comment_lines == old_d.comment_lines + als[j].comment_lines
            &&& new_d.document_lines == old_d.document_lines + als[j].document_lines
            &&& new_d.code_lines == old_d.code_lines + als[j].code_lines
        },
        als[j].name@ != old_d.name@ ==> new_d == old_d,
    ensures
        is_language_delta(new_d, bs, als.take(j + 1)),
{
    let n = old_d.name@;
    lemma_name_sum_step(als, n, f_files(), j);
    lemma_name_sum_step(als, n, f_total(), j);
    lemma_name_sum_step(als, n, f_blanks(), j);
    lemma_name_sum_step(als, n, f_comments(), j);
    lemma_name_sum_step(als, n, f_documents(), j);
    lemma_name_sum_step(als, n, f_code(), j);
}

/// Changes from `before` to `after`: of the summary counts, and of every language whose
/// counts changed (entries of one name are added together), largest change of total
/// lines first, then by name.
pub fn diff_reports(before: &ScanReport, after: &ScanReport) -> (diff: ScanReportDiff)
    requires
        summary_fits(before.summary),
        summary_fits(after.summary),
        languages_fit(before.languages@),
        languages_fit(after.languages@),
    ensures
        is_report_diff(diff, *before, *after),
{
    let ghost bs = before.languages@;
    let ghost als = after.languages@;
    let ghost nothing: Seq<LanguageStat> = Seq::empty();
    let mut deltas: Vec<LanguageDelta> = Vec::new();
    let mut i: usize = 0;
    while i < before.languages.len()
        invariant
            bs == before.languages@,
            i <= bs.len(),
            languages_fit(bs),
            nothing.len() == 0,
            tallies(deltas@, bs.take(i as int), nothing),
        decreases bs.len() - i,
    {
        let language = &before.languages[i];
        let ghost name = language.name@;
        let ghost start = deltas@;
        proof {
            lemma_steps(bs, name, i as int);
            lemma_bounds(bs, name, i as int);
        }
        let found = find_delta(&deltas, language.name.as_str());
        let p: usize = match found {
            Some(p) => p,
            None => {
                proof {
                    assert(!has_language(bs.take(i as int), name));
                    lemma_name_sum_absent(bs.take(i as int), name, f_files());
                    lemma_name_sum_absent(bs.take(i as int), name, f_total());
                    lemma_name_sum_absent(bs.take(i as int), name, f_blanks());
                    lemma_name_sum_absent(bs.take(i as int), name, f_comments());
                    lemma_name_sum_absent(bs.take(i as int), name, f_documents());
                    lemma_name_sum_absent(bs.take(i as int), name, f_code());
                }
                deltas.push(LanguageDelta::from_language(language));
                deltas.len() - 1
            },
        };
        let ghost old_deltas = deltas@;
        assert(forall|k: int| 0 <= k < start.len() ==> deltas@[k] == start[k]);
        assert(is_language_delta(deltas@[p as int], bs.take(i as int), nothing));
        let mut d = deltas.remove(p);
        d.subtract_language(language);
        deltas.insert(p, d);
        proof {
            assert(deltas@ =~= old_deltas.update(p as int, d));
            assert forall|name2: Seq<char>|
                has_language(bs.take(i + 1), name2) == (has_language(bs.take(i as int), name2) || bs[i as int].name@ == name2)
            by {
                lemma_has_language_step(bs, name2, i as int);
            }
            assert forall|k: int| 0 <= k < deltas@.len() implies #[trigger] is_language_delta(deltas@[k], bs.take(i + 1), nothing) by {
                if k != p {
                    assert(old_deltas[k].name@ != old_deltas[p as int].name@);
                }
                lemma_before_step(old_deltas[k], deltas@[k], bs, i as int, nothing);
            }
            assert forall|k: int| 0 <= k < deltas@.len() implies has_language(bs.take(i + 1), #[trigger] deltas@[k].name@)
                || has_language(nothing, deltas@[k].name@) by {
                lemma_has_language_step(bs, deltas@[k].name@, i as int);
            }
            assert forall|name2: Seq<char>|
                #![trigger has_language(bs.take(i + 1), name2)]
                #![trigger has_language(nothing, name2)]
                has_language(bs.take(i + 1), name2) || has_language(nothing, name2) implies exists|k: int|
                    0 <= k < deltas@.len() && #[trigger] deltas@[k].name@ == name2 by {
                lemma_has_language_step(bs, name2, i as int);
                if name2 == name {
                    assert(deltas@[p as int].name@ == name2);
                } else {
                    assert(has_language(bs.take(i as int), name2));
                    let k = choose|k: int| 0 <= k < start.len() && #[trigger] start[k].name@ == name2;
                    assert(old_deltas[k].name@ == name2);
                    assert(k != p);
                    assert(deltas@[k].name@ == name2);
                }
            }
        }
        i = i + 1;
    }
    proof {
        assert(bs.take(bs.len() as int) =~= bs);
        assert forall|name2: Seq<char>| !#[trigger] has_language(nothing, name2) by {}
        assert(als.take(0) =~= nothing);
    }
    let mut j: usize = 0;
    while j < after.languages.len()
        invariant
            bs == before.languages@,
            als == after.languages@,
            j <= als.len(),
            languages_fit(bs),
            languages_fit(als),
            tallies(deltas@, bs, als.take(j as int)),
        decreases als.len() - j,
    {
        let language = &after.languages[j];
        let ghost name = language.name@;
        let ghost start = deltas@;
        proof {
            lemma_steps(als, name, j as int);
            lemma_bounds(als, name, j as int);
            lemma_name_bound(bs, name);
        }
        let found = find_delta(&deltas, language.name.as_str());
        let p: usize = match found {
            Some(p) => p,
            None => {
                proof {
                    assert(!has_language(bs, name));
                    assert(!has_language(als.take(j as int), name));
                    lemma_name_sum_absent(bs, name, f_files());
                    lemma_name_sum_absent(bs, name, f_total());
                    lemma_name_sum_absent(bs, name, f_blanks());
                    lemma_name_sum_absent(bs, name, f_comments());
                    lemma_name_sum_absent(bs, name, f_documents());
                    lemma_name_sum_absent(bs, name, f_code());
                    lemma_name_sum_absent(als.take(j as int), name, f_files());
                    lemma_name_sum_absent(als.take(j as int), name, f_total());
                    lemma_name_sum_absent(als.take(j as int), name, f_blanks());
                    lemma_name_sum_absent(als.take(j as int), name, f_comments());
                    lemma_name_sum_absent(als.take(j as int), name, f_documents());
                    lemma_name_sum_absent(als.take(j as int), name, f_code());
                }
                deltas.push(LanguageDelta::from_language(language));
                deltas.len() - 1
            },
        };
        let ghost old_deltas = deltas@;
        assert(forall|k: int| 0 <= k < start.len() ==> deltas@[k] == start[k]);
        assert(is_language_delta(deltas@[p as int], bs, als.take(j as int)));
        let mut d = deltas.remove(p);
        d.add_language(language);
        deltas.insert(p, d);
        proof {
            assert(deltas@ =~= old_deltas.update(p as int, d));
            assert forall|k: int| 0 <= k < deltas@.len() implies #[trigger] is_language_delta(deltas@[k], bs, als.take(j + 1)) by {
                if k != p {
                    assert(old_deltas[k].name@ != old_deltas[p as int].name@);
                }
                lemma_after_step(old_deltas[k], deltas@[k], bs, als, j as int);
            }
            assert forall|k: int| 0 <= k < deltas@.len() implies has_language(bs, #[trigger] deltas@[k].name@)
                || has_language(als.take(j + 1), deltas@[k].name@) by {
                lemma_has_language_step(als, deltas@[k].name@, j as int);
            }
            assert forall|name2: Seq<char>|
                #![trigger has_language(bs, name2)]
                #![trigger has_language(als.take(j + 1), name2)]
                has_language(bs, name2) || has_language(als.take(j + 1), name2) implies exists|k: int|
                    0 <= k < deltas@.len() && #[trigger] deltas@[k].name@ == name2 by {
                lemma_has_language_step(als, name2, j as int);
                if name2 == name {
                    assert(deltas@[p as int].name@ == name2);
                } else {
                    assert(has_language(bs, name2) || has_language(als.take(j as int), name2));
                    let k = choose|k: int| 0 <= k < start.len() && #[trigger] start[k].name@ == name2;
                    assert(old_deltas[k].name@ == name2);
                    assert(k != p);
                    assert(deltas@[k].name@ == name2);
                }
            }
        }
        j = j + 1;
    }
    proof {
        assert(als.take(als.len() as int) =~= als);
    }
    let ghost all = deltas@;
    let mut changed: Vec<LanguageDelta> = Vec::new();
    let ghost mut picked: Seq<int> = Seq::empty();
    let mut m: usize = 0;
    let count = deltas.len();
    for d in it: deltas
        invariant
            count == all.len(),
            it.seq() == all,
            m == it.index(),
            tallies(all, bs, als),
            picked.len() == changed@.len(),
            forall|k: int| 0 <= k < picked.len() ==> 0 <= #[trigger] picked[k] < m,
            forall|a: int, b: int| 0 <= a < b < picked.len() ==> picked[a] < picked[b],
            forall|k: int| 0 <= k < picked.len() ==> #[trigger] changed@[k] == all[picked[k]],
            forall|k: int| 0 <= k < picked.len() ==> !(#[trigger] changed@[k]).is_zero_spec(),
            forall|q: int| 0 <= q < m && !(#[trigger] all[q]).is_zero_spec() ==> listed(picked, picked.len(), q),
    {
        assert(d == all[m as int]);
        let ghost old_picked = picked;
        if !d.is_zero() {
            proof {
                picked = picked.push(m as int);
            }
            changed.push(d);
        }
        proof {
            assert forall|q: int| 0 <= q < m + 1 && !(#[trigger] all[q]).is_zero_spec() implies listed(picked, picked.len(), q) by {
                if q == m {
                    assert(picked[picked.len() - 1] == q);
                } else {
                    assert(listed(old_picked, old_picked.len(), q));
                    let k = choose|k: int| 0 <= k < old_picked.len() && old_picked[k] == q;
                    assert(picked[k] == q);
                }
            }
        }
        m = m + 1;
    }
    proof {
        assert forall|a: int, b: int| 0 <= a < b < changed@.len() implies changed@[a].name@ != changed@[b].name@ by {
            assert(picked[a] < picked[b]);
        }
    }
    let ghost unsorted = changed@;
    let sorted = sort_ranked(changed);
    proof {
        let order = choose|order: Seq<int>|
            {
                &&& is_index_permutation(order, unsorted.len())
                &&& sorted@.len() == unsorted.len()
                &&& forall|k: int| 0 <= k < sorted@.len() ==> #[trigger] sorted@[k] == unsorted[order[k]]
                &&& forall|a: int, b: int|
                    0 <= a < b < sorted@.len() ==> #[trigger] precedes(
                        unsorted[order[a]],
                        order[a],
                        unsorted[order[b]],
                        order[b],
                    )
            };
        assert forall|k: int| 0 <= k < sorted@.len() implies is_language_delta(#[trigger] sorted@[k], bs, als)
            && !unchanged(bs, als, sorted@[k].name@)
            && (has_language(bs, sorted@[k].name@) || has_language(als, sorted@[k].name@)) by {
            assert(sorted@[k] == unsorted[order[k]]);
            let q = picked[order[k]];
            assert(unsorted[order[k]] == all[q]);
            assert(is_language_delta(all[q], bs, als));
        }
        assert forall|name2: Seq<char>|
            (has_language(bs, name2) || has_language(als, name2)) && !unchanged(bs, als, name2) implies exists|k: int|
                0 <= k < sorted@.len() && #[trigger] sorted@[k].name@ == name2 by {
            assert(has_language(bs, name2) || has_language(als, name2));
            let q = choose|q: int| 0 <= q < all.len() && #[trigger] all[q].name@ == name2;
            assert(is_language_delta(all[q], bs, als));
            assert(!all[q].is_zero_spec());
            assert(listed(picked, picked.len(), q));
            let k0 = choose|k: int| 0 <= k < picked.len() && picked[k] == q;
            assert(listed(order, unsorted.len(), k0));
            let k1 = choose|k: int| 0 <= k < unsorted.len() && order[k] == k0;
            assert(sorted@[k1] == unsorted[k0]);
        }
        assert forall|a: int, b: int| 0 <= a < b < sorted@.len() implies {
            ||| magnitude(#[trigger] sorted@[a].total_lines as int) > magnitude(#[trigger] sorted@[b].total_lines as int)
            ||| (magnitude(sorted@[a].total_lines as int) == magnitude(sorted@[b].total_lines as int) && lex_lt(
                sorted@[a].name@,
                sorted@[b].name@,
            ))
        } by {
            assert(sorted@[a] == unsorted[order[a]]);
            assert(sorted@[b] == unsorted[order[b]]);
            assert(precedes(unsorted[order[a]], order[a], unsorted[order[b]], order[b]));
            assert(order[a] != order[b]);
            if order[a] < order[b] {
                assert(unsorted[order[a]].name@ != unsorted[order[b]].name@);
            } else {
                assert(unsorted[order[b]].name@ != unsorted[order[a]].name@);
            }
        }
    }
    let diff = ScanReportDiff {
        before_root: before.summary.root.clone(),
        after_root: after.summary.root.clone(),
        summary: LineDelta::between_summaries(&before.summary, &after.summary),
        languages: sorted,
    };
    diff
}

} // verus!
