//! State of the terminal UI: current view, language selection and filter, and the
//! report export settings; and the decisions taken on each key press.
use vstd::prelude::*;
use crate::model::{ScanReport, LanguageStat};
use crate::report::{ReportFormat, ReportRenderOptions};
use crate::text::{contains_seq, lowercase, to_lowercase, str_contains, push_char, pop_char};

verus! {

/// The three views of the terminal UI.
#[derive(Debug, Clone, Copy, PartialEq, Eq, Structural)]
pub enum AppView {
    Dashboard,
    Explorer,
    Report,
}

/// Settings the terminal UI starts with.
#[derive(Debug, Clone, Copy, PartialEq, Eq, Structural)]
pub struct TuiOptions {
    pub initial_view: AppView,
    pub report_format: ReportFormat,
}

impl Default for TuiOptions {
    /// The dashboard, with JSON as the export format.
    fn default() -> (options: Self)
        ensures
            options.initial_view == AppView::Dashboard,
            options.report_format == ReportFormat::Json,
    {
        TuiOptions { initial_view: AppView::Dashboard, report_format: ReportFormat::Json }
    }
}

/// The view that follows `view` when cycling: dashboard, explorer, report, dashboard.
pub open spec fn view_after(view: AppView) -> AppView {
    match view {
        AppView::Dashboard => AppView::Explorer,
        AppView::Explorer => AppView::Report,
        AppView::Report => AppView::Dashboard,
    }
}

/// The export format that follows `format`: JSON, Markdown, HTML, CSV, JSON.
pub open spec fn format_after(format: ReportFormat) -> ReportFormat {
    match format {
        ReportFormat::Json => ReportFormat::Markdown,
        ReportFormat::Markdown => ReportFormat::Html,
        ReportFormat::Html => ReportFormat::Csv,
        ReportFormat::Csv => ReportFormat::Json,
    }
}

/// The export format that precedes `format` in the same cycle.
pub open spec fn format_before(format: ReportFormat) -> ReportFormat {
    match format {
        ReportFormat::Json => ReportFormat::Csv,
        ReportFormat::Markdown => ReportFormat::Json,
        ReportFormat::Html => ReportFormat::Markdown,
        ReportFormat::Csv => ReportFormat::Html,
    }
}

/// The next export format.
pub fn next_report_format(format: ReportFormat) -> (next: ReportFormat)
    ensures
        next == format_after(format),
{
    match format {
        ReportFormat::Json => ReportFormat::Markdown,
        ReportFormat::Markdown => ReportFormat::Html,
        ReportFormat::Html => ReportFormat::Csv,
        ReportFormat::Csv => ReportFormat::Json,
    }
}

/// The previous export format.
pub fn previous_report_format(format: ReportFormat) -> (previous: ReportFormat)
    ensures
        previous == format_before(format),
{
    match format {
        ReportFormat::Json => ReportFormat::Csv,
        ReportFormat::Markdown => ReportFormat::Json,
        ReportFormat::Html => ReportFormat::Markdown,
        ReportFormat::Csv => ReportFormat::Html,
    }
}

/// A language is shown under `filter` when the filter is empty or its lower-case form
/// occurs in the language name's lower-case form.
pub open spec fn language_shown(language: LanguageStat, filter: Seq<char>) -> bool {
    filter.len() == 0 || contains_seq(lowercase(language.name@), lowercase(filter))
}

/// The languages of `languages` shown under `filter`, in order.
pub open spec fn shown_languages(languages: Seq<LanguageStat>, filter: Seq<char>) -> Seq<LanguageStat>
    decreases languages.len(),
{
    if languages.len() == 0 {
        Seq::empty()
    } else if language_shown(languages.last(), filter) {
        shown_languages(languages.drop_last(), filter).push(languages.last())
    } else {
        shown_languages(languages.drop_last(), filter)
    }
}

/// With an empty filter every language is shown.
pub proof fn lemma_empty_filter_shows_all(languages: Seq<LanguageStat>, filter: Seq<char>)
    requires
        filter.len() == 0,
    ensures
        shown_languages(languages, filter) == languages,
    decreases languages.len(),
{
    if languages.len() > 0 {
        lemma_empty_filter_shows_all(languages.drop_last(), filter);
        assert(languages.drop_last().push(languages.last()) =~= languages);
    }
}

/// The state of the terminal UI, as its operations see it.
pub struct AppModel {
    pub report: ScanReport,
    pub view: AppView,
    pub selected: nat,
    pub filter: Seq<char>,
    pub editing_filter: bool,
    pub format: ReportFormat,
    pub include_languages: bool,
    pub include_files: bool,
    pub status: Option<Seq<char>>,
}

impl AppModel {
    /// The languages the explorer lists.
    pub open spec fn shown(self) -> Seq<LanguageStat> {
        shown_languages(self.report.languages@, self.filter)
    }

    /// The language the explorer has selected, if any.
    pub open spec fn selected_language(self) -> Option<LanguageStat> {
        if self.selected < self.shown().len() {
            Some(self.shown()[self.selected as int])
        } else {
            None
        }
    }
}

/// The state of the terminal UI.
#[derive(Debug)]
pub struct AppState {
    report: ScanReport,
    current_view: AppView,
    selected_language_index: usize,
    language_filter: String,
    editing_language_filter: bool,
    report_format: ReportFormat,
    include_report_languages: bool,
    include_report_files: bool,
    report_status: Option<String>,
}

impl AppState {
    /// The model of this state.
    pub closed spec fn model(&self) -> AppModel {
        AppModel {
            report: self.report,
            view: self.current_view,
            selected: self.selected_language_index as nat,
            filter: self.language_filter@,
            editing_filter: self.editing_language_filter,
            format: self.report_format,
            include_languages: self.include_report_languages,
            include_files: self.include_report_files,
            status: match self.report_status {
                Some(s) => Some(s@),
                None => None,
            },
        }
    }

    /// The selection stays within the listed languages (it is 0 when none are listed).
    #[verifier::type_invariant]
    closed spec fn selection_in_range(&self) -> bool {
        self.selected_language_index == 0 || self.selected_language_index < shown_languages(
            self.report.languages@,
            self.language_filter@,
        ).len()
    }
}

impl AppState {
    /// A state on the dashboard, exporting JSON with language details.
    pub fn new(report: ScanReport) -> (state: Self)
        ensures
            state@ == (AppModel {
                report,
                view: AppView::Dashboard,
                selected: 0,
                filter: Seq::empty(),
                editing_filter: false,
                format: ReportFormat::Json,
                include_languages: true,
                include_files: false,
                status: None,
            }),
    {
        Self::new_with_options(report, TuiOptions::default())
    }

    /// A state on the view and with the export format that `options` give, exporting
    /// language details but not file details.
    pub fn new_with_options(report: ScanReport, options: TuiOptions) -> (state: Self)
        ensures
            state@ == (AppModel {
                report,
                view: options.initial_view,
                selected: 0,
                filter: Seq::empty(),
                editing_filter: false,
                format: options.report_format,
                include_languages: true,
                include_files: false,
                status: None,
            }),
    {
        let state = AppState {
            report,
            current_view: options.initial_view,
            selected_language_index: 0,
            language_filter: String::new(),
            editing_language_filter: false,
            report_format: options.report_format,
            include_report_languages: true,
            include_report_files: false,
            report_status: None,
        };
        assert(state@.filter =~= Seq::<char>::empty());
        state
    }

    /// The report the UI shows.
    pub fn report(&self) -> (report: &ScanReport)
        ensures
            *report == self@.report,
    {
        &self.report
    }

    /// The view the UI shows.
    pub fn current_view(&self) -> (view: AppView)
        ensures
            view == self@.view,
    {
        self.current_view
    }

    /// Moves to the next view: dashboard, explorer, report, then dashboard again.
    pub fn next_view(&mut self)
        ensures
            final(self)@ == (AppModel { view: view_after(old(self)@.view), ..old(self)@ }),
    {
        proof {
            use_type_invariant(&*self);
        }
        self.current_view = match self.current_view {
            AppView::Dashboard => AppView::Explorer,
            AppView::Explorer => AppView::Report,
            AppView::Report => AppView::Dashboard,
        };
    }

    /// Moves to `view`.
    pub fn set_view(&mut self, view: AppView)
        ensures
            final(self)@ == (AppModel { view, ..old(self)@ }),
    {
        proof {
            use_type_invariant(&*self);
        }
        self.current_view = view;
    }

    /// The filter the explorer applies.
    pub fn language_filter(&self) -> (filter: &str)
        ensures
            filter@ == self@.filter,
    {
        self.language_filter.as_str()
    }

    /// The position of the selection among the listed languages: always one of them,
    /// or 0 when none is listed.
    pub fn selected_language_index(&self) -> (index: usize)
        ensures
            index == self@.selected,
            index == 0 || index < self@.shown().len(),
    {
        proof {
            use_type_invariant(self);
        }
        self.selected_language_index
    }

    /// The languages the explorer lists: all of them with an empty filter, else those
    /// whose lower-case name holds the lower-case filter.
    pub fn filtered_languages(&self) -> (languages: Vec<&LanguageStat>)
        ensures
            languages@.len() == self@.shown().len(),
            forall|k: int| 0 <= k < languages@.len() ==> *#[trigger] languages@[k] == self@.shown()[k],
    {
        let ghost all = self.report.languages@;
        let ghost filter = self.language_filter@;
        let empty = self.language_filter.as_str().is_empty();
        let needle = to_lowercase(self.language_filter.as_str());
        let mut out: Vec<&LanguageStat> = Vec::new();
        let mut i: usize = 0;
        while i < self.report.languages.len()
            invariant
                all == self.report.languages@,
                filter == self.language_filter@,
                empty == (filter.len() == 0),
                needle@ == lowercase(filter),
                i <= all.len(),
                out@.len() == shown_languages(all.take(i as int), filter).len(),
                forall|k: int| 0 <= k < out@.len() ==> *#[trigger] out@[k] == shown_languages(all.take(i as int), filter)[k],
            decreases all.len() - i,
        {
            let language = &self.report.languages[i];
            let keep = if empty {
                true
            } else {
                let name = to_lowercase(language.name.as_str());
                str_contains(name.as_str(), needle.as_str())
            };
            assert(keep == language_shown(*language, filter));
            proof {
                assert(all.take(i + 1).drop_last() =~= all.take(i as int));
                assert(all.take(i + 1).last() == all[i as int]);
            }
            if keep {
                out.push(language);
            }
            i = i + 1;
        }
        assert(all.take(all.len() as int) =~= all);
        out
    }

    /// The language the explorer has selected; there is one whenever a language is
    /// listed.
    pub fn selected_language(&self) -> (language: Option<&LanguageStat>)
        ensures
            match language {
                Some(l) => self@.selected_language() == Some(*l),
                None => self@.selected_language() is None,
            },
            self@.shown().len() > 0 <==> language is Some,
    {
        proof {
            use_type_invariant(self);
        }
        let languages = self.filtered_languages();
        if self.selected_language_index < languages.len() {
            Some(languages[self.selected_language_index])
        } else {
            None
        }
    }

    /// Selects the next listed language, wrapping from the last to the first.
    pub fn select_next_language(&mut self)
        ensures
            final(self)@ == (AppModel {
                selected: if old(self)@.shown().len() == 0 {
                    0
                } else {
                    ((old(self)@.selected + 1) % old(self)@.shown().len()) as nat
                },
                ..old(self)@
            }),
    {
        proof {
            use_type_invariant(&*self);
        }
        let count = self.filtered_languages().len();
        if count == 0 {
            self.selected_language_index = 0;
            return;
        }
        self.selected_language_index = (self.selected_language_index + 1) % count;
    }

    /// Selects the previous listed language, wrapping from the first to the last.
    pub fn select_previous_language(&mut self)
        ensures
            final(self)@ == (AppModel {
                selected: if old(self)@.shown().len() == 0 {
                    0
                } else if old(self)@.selected == 0 {
                    (old(self)@.shown().len() - 1) as nat
                } else {
                    (old(self)@.selected - 1) as nat
                },
                ..old(self)@
            }),
    {
        proof {
            use_type_invariant(&*self);
        }
        let count = self.filtered_languages().len();
        if count == 0 {
            self.selected_language_index = 0;
            return;
        }
        self.selected_language_index = if self.selected_language_index == 0 {
            count - 1
        } else {
            self.selected_language_index - 1
        };
    }

    /// Sets the explorer filter and selects the first listed language.
    pub fn set_language_filter(&mut self, filter: &str)
        ensures
            final(self)@ == (AppModel { filter: filter@, selected: 0, ..old(self)@ }),
    {
        proof {
            use_type_invariant(&*self);
        }
        self.selected_language_index = 0;
        self.language_filter = String::from_str(filter);
    }

    /// Clears the explorer filter and selects the first language.
    pub fn clear_language_filter(&mut self)
        ensures
            final(self)@ == (AppModel { filter: Seq::empty(), selected: 0, ..old(self)@ }),
    {
        proof {
            use_type_invariant(&*self);
        }
        self.selected_language_index = 0;
        self.language_filter = String::new();
    }

    /// The export format.
    pub fn report_format(&self) -> (format: ReportFormat)
        ensures
            format == self@.format,
    {
        self.report_format
    }

    /// Whether exports hold language details.
    pub fn includes_language_details(&self) -> (included: bool)
        ensures
            included == self@.include_languages,
    {
        self.include_report_languages
    }

    /// Whether exports hold file details.
    pub fn includes_file_details(&self) -> (included: bool)
        ensures
            included == self@.include_files,
    {
        self.include_report_files
    }

    /// The options an export renders with: the details the report view has switched on.
    pub fn render_options(&self) -> (options: ReportRenderOptions)
        ensures
            options.include_language_details == self@.include_languages,
            options.include_file_details == self@.include_files,
    {
        ReportRenderOptions {
            include_language_details: self.include_report_languages,
            include_file_details: self.include_report_files,
        }
    }

    /// The last export's outcome, if there was one.
    pub fn report_status(&self) -> (status: Option<&str>)
        ensures
            match status {
                Some(s) => self@.status == Some(s@),
                None => self@.status is None,
            },
    {
        match &self.report_status {
            Some(s) => Some(s.as_str()),
            None => None,
        }
    }

    /// Moves to the next export format.
    pub fn next_report_format(&mut self)
        ensures
            final(self)@ == (AppModel { format: format_after(old(self)@.format), ..old(self)@ }),
    {
        proof {
            use_type_invariant(&*self);
        }
        self.report_format = next_report_format(self.report_format);
    }

    /// Moves to the previous export format.
    pub fn previous_report_format(&mut self)
        ensures
            final(self)@ == (AppModel { format: format_before(old(self)@.format), ..old(self)@ }),
    {
        proof {
            use_type_invariant(&*self);
        }
        self.report_format = previous_report_format(self.report_format);
    }

    /// Turns language details on or off.
    pub fn toggle_report_languages(&mut self)
        ensures
            final(self)@ == (AppModel { include_languages: !old(self)@.include_languages, ..old(self)@ }),
    {
        proof {
            use_type_invariant(&*self);
        }
        self.include_report_languages = !self.include_report_languages;
    }

    /// Turns file details on or off; turning them on turns language details on too.
    pub fn toggle_report_files(&mut self)
        ensures
            final(self)@ == (AppModel {
                include_files: !old(self)@.include_files,
                include_languages: if !old(self)@.include_files { true } else { old(self)@.include_languages },
                ..old(self)@
            }),
    {
        proof {
            use_type_invariant(&*self);
        }
        self.include_report_files = !self.include_report_files;
        if self.include_report_files {
            self.include_report_languages = true;
        }
    }

    /// Records the outcome of an export.
    pub fn set_report_status(&mut self, status: &str)
        ensures
            final(self)@ == (AppModel { status: Some(status@), ..old(self)@ }),
    {
        proof {
            use_type_invariant(&*self);
        }
        self.report_status = Some(String::from_str(status));
    }

    /// Records a successful export to the file `file_name`: the status reads
    /// `Exported` and the name.
    pub fn record_export(&mut self, file_name: &str)
        ensures
            final(self)@ == (AppModel { status: Some("Exported "@ + file_name@), ..old(self)@ }),
    {
        let mut status = String::new();
        crate::text::push_all(&mut status, "Exported ");
        crate::text::push_all(&mut status, file_name);
        self.set_report_status(status.as_str());
    }

    /// Starts editing the explorer filter.
    pub fn start_language_filter(&mut self)
        ensures
            final(self)@ == (AppModel { editing_filter: true, ..old(self)@ }),
    {
        proof {
            use_type_invariant(&*self);
        }
        self.editing_language_filter = true;
    }

    /// Stops editing the explorer filter.
    pub fn stop_language_filter(&mut self)
        ensures
            final(self)@ == (AppModel { editing_filter: false, ..old(self)@ }),
    {
        proof {
            use_type_invariant(&*self);
        }
        self.editing_language_filter = false;
    }

    /// Whether the explorer filter is being edited.
    pub fn is_editing_language_filter(&self) -> (editing: bool)
        ensures
            editing == self@.editing_filter,
    {
        self.editing_language_filter
    }

    /// Appends a character to the explorer filter and selects the first listed language.
    pub fn push_language_filter_char(&mut self, value: char)
        ensures
            final(self)@ == (AppModel { filter: old(self)@.filter.push(value), selected: 0, ..old(self)@ }),
    {
        proof {
            use_type_invariant(&*self);
        }
        self.selected_language_index = 0;
        let mut filter = String::new();
        std::mem::swap(&mut filter, &mut self.language_filter);
        push_char(&mut filter, value);
        self.language_filter = filter;
    }

    /// Removes the last character of the explorer filter, if any, and selects the first
    /// listed language.
    pub fn pop_language_filter_char(&mut self)
        ensures
            final(self)@ == (AppModel {
                filter: if old(self)@.filter.len() == 0 { old(self)@.filter } else { old(self)@.filter.drop_last() },
                selected: 0,
                ..old(self)@
            }),
    {
        proof {
            use_type_invariant(&*self);
        }
        self.selected_language_index = 0;
        let mut filter = String::new();
        std::mem::swap(&mut filter, &mut self.language_filter);
        let _ = pop_char(&mut filter);
        self.language_filter = filter;
    }

    /// Replaces the report with a new scan of the same root, keeping the selection where
    /// it still names a listed language and moving it to the last one otherwise.
    pub fn rescan(&mut self, report: ScanReport)
        ensures
            final(self)@.report == report,
            final(self)@ == (AppModel {
                report,
                selected: if final(self)@.shown().len() == 0 {
                    0
                } else if old(self)@.selected < final(self)@.shown().len() {
                    old(self)@.selected
                } else {
                    (final(self)@.shown().len() - 1) as nat
                },
                ..old(self)@
            }),
    {
        proof {
            use_type_invariant(&*self);
        }
        let previous = self.selected_language_index;
        self.selected_language_index = 0;
        self.report = report;
        let count = self.filtered_languages().len();
        if count == 0 {
            self.selected_language_index = 0;
        } else if previous < count {
            self.selected_language_index = previous;
        } else {
            self.selected_language_index = count - 1;
        }
    }
}

impl View for AppState {
    type V = AppModel;

    open spec fn view(&self) -> AppModel {
        self.model()
    }
}

/// A key the terminal UI reacts to.
#[derive(Debug, Clone, Copy, PartialEq, Eq, Structural)]
pub enum KeyCode {
    Char(char),
    Enter,
    Esc,
    Backspace,
    Tab,
    Up,
    Down,
    Left,
    Right,
    Other,
}

/// Whether a key went down, repeated, or came up.
#[derive(Debug, Clone, Copy, PartialEq, Eq, Structural)]
pub enum KeyEventKind {
    Press,
    Repeat,
    Release,
}

/// A key event of the terminal.
#[derive(Debug, Clone, Copy, PartialEq, Eq, Structural)]
pub struct KeyEvent {
    pub code: KeyCode,
    pub kind: KeyEventKind,
}

/// What the terminal UI must do after a key: go on, quit, scan the root again, or
/// export the report.
#[derive(Debug, Clone, Copy, PartialEq, Eq, Structural)]
pub enum KeyAction {
    Continue,
    Quit,
    Rescan,
    Export,
}

/// The state after selecting the next listed language.
pub open spec fn select_next_model(m: AppModel) -> AppModel {
    AppModel {
        selected: if m.shown().len() == 0 { 0 } else { ((m.selected + 1) % m.shown().len()) as nat },
        ..m
    }
}

/// The state after selecting the previous listed language.
pub open spec fn select_previous_model(m: AppModel) -> AppModel {
    AppModel {
        selected: if m.shown().len() == 0 {
            0
        } else if m.selected == 0 {
            (m.shown().len() - 1) as nat
        } else {
            (m.selected - 1) as nat
        },
        ..m
    }
}

/// The state after toggling file details.
pub open spec fn toggle_files_model(m: AppModel) -> AppModel {
    AppModel {
        include_files: !m.include_files,
        include_languages: if !m.include_files { true } else { m.include_languages },
        ..m
    }
}

/// A key while the explorer filter is edited: Enter and Esc end the editing, Backspace
/// deletes, a character is typed; the selection goes back to the first language.
pub open spec fn filter_key_transition(m: AppModel, key: KeyCode) -> (AppModel, KeyAction) {
    match key {
        KeyCode::Enter => (AppModel { editing_filter: false, ..m }, KeyAction::Continue),
        KeyCode::Esc => (AppModel { editing_filter: false, ..m }, KeyAction::Continue),
        KeyCode::Backspace => (
            AppModel {
                filter: if m.filter.len() == 0 { m.filter } else { m.filter.drop_last() },
                selected: 0,
                ..m
            },
            KeyAction::Continue,
        ),
        KeyCode::Char(c) => (AppModel { filter: m.filter.push(c), selected: 0, ..m }, KeyAction::Continue),
        _ => (m, KeyAction::Continue),
    }
}

/// A key otherwise: `q` quits, `r` rescans, Tab and `1`/`2`/`3` switch views; in the
/// explorer Up/Down select and `/` starts the filter; in the report view Left/Right
/// change the format, `l` toggles language details, `f` and Space toggle file details,
/// and `e` exports.
pub open spec fn command_key_transition(m: AppModel, key: KeyCode) -> (AppModel, KeyAction) {
    if key == KeyCode::Char('q') {
        (m, KeyAction::Quit)
    } else if key == KeyCode::Char('r') {
        (m, KeyAction::Rescan)
    } else if key == KeyCode::Tab {
        (AppModel { view: view_after(m.view), ..m }, KeyAction::Continue)
    } else if key == KeyCode::Char('1') {
        (AppModel { view: AppView::Dashboard, ..m }, KeyAction::Continue)
    } else if key == KeyCode::Char('2') {
        (AppModel { view: AppView::Explorer, ..m }, KeyAction::Continue)
    } else if key == KeyCode::Char('3') {
        (AppModel { view: AppView::Report, ..m }, KeyAction::Continue)
    } else if m.view == AppView::Explorer && key == KeyCode::Up {
        (select_previous_model(m), KeyAction::Continue)
    } else if m.view == AppView::Explorer && key == KeyCode::Down {
        (select_next_model(m), KeyAction::Continue)
    } else if m.view == AppView::Explorer && key == KeyCode::Char('/') {
        (AppModel { editing_filter: true, ..m }, KeyAction::Continue)
    } else if m.view == AppView::Report && key == KeyCode::Left {
        (AppModel { format: format_before(m.format), ..m }, KeyAction::Continue)
    } else if m.view == AppView::Report && key == KeyCode::Right {
        (AppModel { format: format_after(m.format), ..m }, KeyAction::Continue)
    } else if m.view == AppView::Report && key == KeyCode::Char('l') {
        (AppModel { include_languages: !m.include_languages, ..m }, KeyAction::Continue)
    } else if m.view == AppView::Report && (key == KeyCode::Char('f') || key == KeyCode::Char(' ')) {
        (toggle_files_model(m), KeyAction::Continue)
    } else if m.view == AppView::Report && key == KeyCode::Char('e') {
        (m, KeyAction::Export)
    } else {
        (m, KeyAction::Continue)
    }
}

/// The state and action that follow a key.
pub open spec fn key_transition(m: AppModel, key: KeyCode) -> (AppModel, KeyAction) {
    if m.editing_filter {
        filter_key_transition(m, key)
    } else {
        command_key_transition(m, key)
    }
}

/// Updates the state for a key and says what the UI must do next. Rescanning and
/// exporting are left to the caller, which reads the disk and writes the file.
pub fn handle_key(state: &mut AppState, key: KeyCode) -> (action: KeyAction)
    ensures
        (final(state)@, action) == key_transition(old(state)@, key),
{
    if state.is_editing_language_filter() {
        match key {
            KeyCode::Enter | KeyCode::Esc => state.stop_language_filter(),
            KeyCode::Backspace => state.pop_language_filter_char(),
            KeyCode::Char(value) => state.push_language_filter_char(value),
            _ => {},
        }
        return KeyAction::Continue;
    }
    let view = state.current_view();
    if key == KeyCode::Char('q') {
        return KeyAction::Quit;
    } else if key == KeyCode::Char('r') {
        return KeyAction::Rescan;
    } else if key == KeyCode::Tab {
        state.next_view();
    } else if key == KeyCode::Char('1') {
        state.set_view(AppView::Dashboard);
    } else if key == KeyCode::Char('2') {
        state.set_view(AppView::Explorer);
    } else if key == KeyCode::Char('3') {
        state.set_view(AppView::Report);
    } else if view == AppView::Explorer && key == KeyCode::Up {
        state.select_previous_language();
    } else if view == AppView::Explorer && key == KeyCode::Down {
        state.select_next_language();
    } else if view == AppView::Explorer && key == KeyCode::Char('/') {
        state.start_language_filter();
    } else if view == AppView::Report && key == KeyCode::Left {
        state.previous_report_format();
    } else if view == AppView::Report && key == KeyCode::Right {
        state.next_report_format();
    } else if view == AppView::Report && key == KeyCode::Char('l') {
        state.toggle_report_languages();
    } else if view == AppView::Report && (key == KeyCode::Char('f') || key == KeyCode::Char(' ')) {
        state.toggle_report_files();
    } else if view == AppView::Report && key == KeyCode::Char('e') {
        return KeyAction::Export;
    }
    KeyAction::Continue
}

/// Handles a key press or repeat; a key release changes nothing.
pub fn handle_key_event(state: &mut AppState, event: KeyEvent) -> (action: KeyAction)
    ensures
        event.kind == KeyEventKind::Release ==> final(state)@ == old(state)@ && action == KeyAction::Continue,
        event.kind != KeyEventKind::Release ==> (final(state)@, action) == key_transition(old(state)@, event.code),
{
    match event.kind {
        KeyEventKind::Press | KeyEventKind::Repeat => handle_key(state, event.code),
        KeyEventKind::Release => KeyAction::Continue,
    }
}

} // verus!
