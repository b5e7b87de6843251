//! Line-counting report model, report rendering and terminal UI state.
pub mod text;
pub mod sort;
pub mod model;
pub mod diff;
pub mod report;
pub mod state;
pub mod config;
pub mod view;
pub mod console;
pub mod laws;
pub mod output_laws;

pub use model::{
    ScanOptions, ScanSummary, LineCategories, FileStat, LanguageStat, ScanReport, LanguageKind, FileCounts,
    LanguageCounts, scan_report_from_counts,
};
pub use diff::{ScanReportDiff, LineDelta, LanguageDelta, diff_reports};
pub use report::{ReportFormat, ReportRenderOptions, report_extension};
pub use state::{AppState, AppView, TuiOptions};
