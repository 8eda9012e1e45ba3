//! Reports in the format that was asked for.

use vstd::prelude::*;
use vstd::string::*;
use vstd::utf8::encode_utf8;

use crate::modules::{series_models, ModuleReport};
use crate::output::{
    all_figures_models, are_showable, exclusion_note, figures_models, footer, module_blocks,
    modules_are_showable, modules_showable, modules_table, showable, table, table_body,
    table_message, Figures, Format, TableError, TableFailure,
};
use crate::records::{
    all_columns_models, columns_models, csv, modules_are_recordable, modules_csv,
    modules_recordable, modules_records, report_records, Columns,
};
use crate::report::Report;
use crate::snapshot::snapshot_models;

verus! {

/// What a report does not hold itself: its JSON, and the texts that come with its
/// snapshots. What the format does not use may be empty.
pub struct Parts {
    pub json: Vec<u8>,
    pub figures: Vec<Figures>,
    pub columns: Vec<Columns>,
    pub overall: String,
}

/// What a report of modules does not hold itself.
pub struct ModuleParts {
    pub json: Vec<u8>,
    pub figures: Vec<Vec<Figures>>,
    pub columns: Vec<Vec<Columns>>,
    pub metric_json: String,
    pub reference_json: String,
}

/// Why a report cannot be given.
#[derive(Debug)]
pub enum RenderError {
    /// The texts do not fit the snapshots, or the snapshots cannot be shown.
    Unfit,
    /// A checkpoint of a module has no inventory, or its texts do not fit.
    Inventory,
    /// There is no table of the report.
    Table { error: TableError },
}

/// Why a report cannot be given, as specifications speak of it.
pub enum RenderFailure {
    Unfit,
    Inventory,
    Table { failure: TableFailure },
}

impl View for RenderError {
    type V = RenderFailure;

    open spec fn view(&self) -> RenderFailure {
        match self {
            RenderError::Unfit => RenderFailure::Unfit,
            RenderError::Inventory => RenderFailure::Inventory,
            RenderError::Table { error } => RenderFailure::Table { failure: error@ },
        }
    }
}

/// What to tell the user of a report that cannot be given.
pub open spec fn render_message(failure: RenderFailure) -> Seq<char> {
    match failure {
        RenderFailure::Unfit => "Snapshots and their measures do not fit"@,
        RenderFailure::Inventory => "Missing module inventory checkpoint"@,
        RenderFailure::Table { failure } => table_message(failure),
    }
}

impl RenderError {
    /// What to tell the user.
    pub fn message(&self) -> (message: String)
        ensures
            message@ == render_message(self@),
    {
        match self {
            RenderError::Unfit => "Snapshots and their measures do not fit".to_owned(),
            RenderError::Inventory => "Missing module inventory checkpoint".to_owned(),
            RenderError::Table { error } => error.message(),
        }
    }
}

/// The bytes of a report in a format.
pub open spec fn rendered(report: Report, format: Format, every_commit: bool, parts: Parts) -> Result<
    Seq<u8>,
    RenderFailure,
> {
    let snapshots = snapshot_models(report.snapshots@);
    let n = report.snapshots@.len();
    match format {
        Format::Json => Ok(parts.json@.push(10u8)),
        Format::Csv => if parts.figures@.len() != n || parts.columns@.len() != n {
            Err(RenderFailure::Unfit)
        } else {
            Ok(
                report_records(
                    report,
                    figures_models(parts.figures@),
                    columns_models(parts.columns@),
                    n as int,
                ),
            )
        },
        Format::Table => if !showable(report.snapshots@, parts.figures@) {
            Err(RenderFailure::Unfit)
        } else {
            match table_body(
                report.mode@,
                snapshots,
                figures_models(parts.figures@),
                parts.overall@,
                every_commit,
                report.test_exclusion is Some,
            ) {
                Ok(body) => Ok(encode_utf8(body + footer(report.mode@, snapshots))),
                Err(failure) => Err(RenderFailure::Table { failure }),
            }
        },
    }
}

/// A report in a format: its JSON on a line of its own, CSV, or a table.
pub fn render(report: &Report, format: Format, every_commit: bool, parts: Parts) -> (result: Result<
    Vec<u8>,
    RenderError,
>)
    ensures
        match result {
            Ok(bytes) => rendered(*report, format, every_commit, parts) == Ok::<
                Seq<u8>,
                RenderFailure,
            >(bytes@),
            Err(error) => rendered(*report, format, every_commit, parts) == Err::<
                Seq<u8>,
                RenderFailure,
            >(error@),
        },
{
    match format {
        Format::Json => {
            let mut bytes = parts.json;
            bytes.push(10u8);
            Ok(bytes)
        },
        Format::Csv => {
            if parts.figures.len() != report.snapshots.len() || parts.columns.len()
                != report.snapshots.len() {
                return Err(RenderError::Unfit);
            }
            Ok(csv(report, &parts.figures, &parts.columns))
        },
        Format::Table => {
            if !are_showable(&report.snapshots, &parts.figures) {
                return Err(RenderError::Unfit);
            }
            match table(report, &parts.figures, parts.overall.as_str(), every_commit) {
                Ok(text) => Ok(text.as_str().as_bytes_vec()),
                Err(error) => Err(RenderError::Table { error }),
            }
        },
    }
}

/// The bytes of a report of modules in a format.
pub open spec fn modules_rendered(report: ModuleReport, format: Format, parts: ModuleParts) -> Result<
    Seq<u8>,
    RenderFailure,
> {
    let n = report.modules@.len() as int;
    match format {
        Format::Json => Ok(parts.json@.push(10u8)),
        Format::Csv => if !modules_recordable(report, parts.figures@, parts.columns@) {
            Err(RenderFailure::Inventory)
        } else {
            Ok(
                modules_records(
                    report,
                    all_figures_models(parts.figures@),
                    all_columns_models(parts.columns@),
                    parts.metric_json@,
                    parts.reference_json@,
                    n,
                ),
            )
        },
        Format::Table => if !modules_showable(report.modules@, parts.figures@) {
            Err(RenderFailure::Unfit)
        } else {
            Ok(
                encode_utf8(
                    "Erosion whole-module history"@ + exclusion_note(
                        report.test_exclusion is Some,
                    ) + "\n\n"@ + module_blocks(
                        series_models(report.modules@),
                        all_figures_models(parts.figures@),
                        n,
                    ),
                ),
            )
        },
    }
}

/// A report of modules in a format: its JSON on a line of its own, CSV, or a table.
pub fn render_modules(report: &ModuleReport, format: Format, parts: ModuleParts) -> (result: Result<
    Vec<u8>,
    RenderError,
>)
    ensures
        match result {
            Ok(bytes) => modules_rendered(*report, format, parts) == Ok::<
                Seq<u8>,
                RenderFailure,
            >(bytes@),
            Err(error) => modules_rendered(*report, format, parts) == Err::<
                Seq<u8>,
                RenderFailure,
            >(error@),
        },
{
    match format {
        Format::Json => {
            let mut bytes = parts.json;
            bytes.push(10u8);
            Ok(bytes)
        },
        Format::Csv => {
            if !modules_are_recordable(report, &parts.figures, &parts.columns) {
                return Err(RenderError::Inventory);
            }
            Ok(
                modules_csv(
                    report,
                    &parts.figures,
                    &parts.columns,
                    parts.metric_json.as_str(),
                    parts.reference_json.as_str(),
                ),
            )
        },
        Format::Table => {
            if !modules_are_showable(&report.modules, &parts.figures) {
                return Err(RenderError::Unfit);
            }
            Ok(modules_table(report, &parts.figures).as_str().as_bytes_vec())
        },
    }
}

} // verus!
