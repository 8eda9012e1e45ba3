//! Reports as CSV, one record for each snapshot.

use vstd::prelude::*;
use vstd::string::*;
use vstd::utf8::encode_utf8;

use crate::calendar::{rfc3339_text, shown_rfc3339};
use crate::config::config_json;
use crate::format::{count_text, decimal, decimal_text, texts};
use crate::languages::policy::exclusion_policy_json;
use crate::languages::TestExclusionPolicy;
use crate::modules::{module_config_json, series_models, ModuleInventory, ModuleReport, ModuleSeries, SeriesModel};
use crate::output::{all_figures_models, figures_models, Figures, FiguresModel};
use crate::report::Report;
use crate::snapshot::{snapshot_models, Snapshot, SnapshotModel};

verus! {

/// A byte that makes a field be quoted: a comma, a quote or a line end.
pub open spec fn is_csv_special(b: u8) -> bool {
    b == 44 || b == 34 || b == 10 || b == 13
}

/// Bytes with every quote doubled.
pub open spec fn doubled(bytes: Seq<u8>) -> Seq<u8>
    decreases bytes.len(),
{
    if bytes.len() == 0 {
        bytes
    } else if bytes.last() == 34 {
        doubled(bytes.drop_last()) + seq![34u8, 34u8]
    } else {
        doubled(bytes.drop_last()).push(bytes.last())
    }
}

/// A field as it is written: in quotes where it holds a special byte.
pub open spec fn csv_field(bytes: Seq<u8>) -> Seq<u8> {
    if exists|k: int| 0 <= k < bytes.len() && is_csv_special(#[trigger] bytes[k]) {
        seq![34u8] + doubled(bytes) + seq![34u8]
    } else {
        bytes
    }
}

/// The first `n` fields as they are written, with commas between them.
pub open spec fn csv_fields(fields: Seq<Seq<char>>, n: int) -> Seq<u8>
    decreases n,
{
    if n <= 0 {
        Seq::empty()
    } else if n == 1 {
        csv_field(encode_utf8(fields[0]))
    } else {
        csv_fields(fields, n - 1) + seq![44u8] + csv_field(encode_utf8(fields[n - 1]))
    }
}

/// A record as it is written. One that would be empty is a pair of quotes.
pub open spec fn csv_line(fields: Seq<Seq<char>>) -> Seq<u8> {
    let body = csv_fields(fields, fields.len() as int);
    (if body.len() == 0 {
        seq![34u8, 34u8]
    } else {
        body
    }) + seq![10u8]
}

/// Calls `csv::Writer::write_record` on a new writer with the default format and
/// takes what was written with `csv::Writer::into_inner`. Fields that hold a comma,
/// a quote or a line end are put in quotes, with their quotes doubled; fields are
/// separated by commas, and a line feed ends the record. Writing to memory does
/// not fail.
#[verifier::external_body]
fn csv_record(fields: &Vec<String>) -> (record: Option<Vec<u8>>)
    ensures
        record is Some,
        record->0@ == csv_line(texts(fields@)),
{
    let mut writer = csv::Writer::from_writer(Vec::new());
    writer.write_record(fields).ok()?;
    writer.into_inner().ok()
}

/// The parts of a snapshot that are written as JSON.
pub struct Columns {
    pub languages_json: String,
    pub unsupported_extensions_json: String,
    pub coverage_json: String,
    pub failures_json: String,
}

pub struct ColumnsModel {
    pub languages_json: Seq<char>,
    pub unsupported_extensions_json: Seq<char>,
    pub coverage_json: Seq<char>,
    pub failures_json: Seq<char>,
}

impl View for Columns {
    type V = ColumnsModel;

    open spec fn view(&self) -> ColumnsModel {
        ColumnsModel {
            languages_json: self.languages_json@,
            unsupported_extensions_json: self.unsupported_extensions_json@,
            coverage_json: self.coverage_json@,
            failures_json: self.failures_json@,
        }
    }
}

pub open spec fn columns_models(columns: Seq<Columns>) -> Seq<ColumnsModel> {
    columns.map_values(|c: Columns| c@)
}

pub open spec fn all_columns_models(columns: Seq<Vec<Columns>>) -> Seq<Seq<ColumnsModel>> {
    columns.map_values(|c: Vec<Columns>| columns_models(c@))
}

fn add_text(fields: &mut Vec<String>, text: &str)
    ensures
        texts(final(fields)@) == texts(old(fields)@).push(text@),
{
    let ghost before = texts(fields@);
    fields.push(text.to_owned());
    assert(texts(fields@) =~= before.push(text@));
}

fn add_number(fields: &mut Vec<String>, n: usize)
    ensures
        texts(final(fields)@) == texts(old(fields)@).push(decimal(n as nat)),
{
    let text = count_text(n);
    add_text(fields, text.as_str());
}

fn no_fields() -> (fields: Vec<String>)
    ensures
        texts(fields@) == Seq::<Seq<char>>::empty(),
{
    let fields: Vec<String> = Vec::new();
    assert(texts(fields@) =~= Seq::<Seq<char>>::empty());
    fields
}

/// The id of a commit, where there is one.
pub open spec fn commit_id(s: SnapshotModel) -> Seq<char> {
    match s.commit {
        Some(commit) => commit.sha,
        None => ""@,
    }
}

/// The time of a commit, where there is one.
pub open spec fn commit_time(s: SnapshotModel) -> Seq<char> {
    match s.commit {
        Some(commit) => shown_rfc3339(commit.committed_at),
        None => ""@,
    }
}

/// The score in full, where there is one.
pub open spec fn exact_score(s: SnapshotModel, f: FiguresModel) -> Seq<char> {
    if s.measurable {
        f.erosion_pct
    } else {
        ""@
    }
}

/// The change in full, where there is one.
pub open spec fn exact_change(s: SnapshotModel, f: FiguresModel) -> Seq<char> {
    if s.comparable {
        f.change_pp
    } else {
        ""@
    }
}

fn commit_id_text(snapshot: &Snapshot) -> (text: String)
    ensures
        text@ == commit_id(snapshot@),
{
    match &snapshot.commit {
        Some(commit) => commit.sha.clone(),
        None => "".to_owned(),
    }
}

fn commit_time_text(snapshot: &Snapshot) -> (text: String)
    ensures
        text@ == commit_time(snapshot@),
{
    match &snapshot.commit {
        Some(commit) => rfc3339_text(commit.committed_at),
        None => "".to_owned(),
    }
}

fn exact_score_text(snapshot: &Snapshot, figures: &Figures) -> (text: String)
    ensures
        text@ == exact_score(snapshot@, figures@),
{
    if snapshot.measurable {
        figures.erosion_pct.clone()
    } else {
        "".to_owned()
    }
}

fn exact_change_text(snapshot: &Snapshot, figures: &Figures) -> (text: String)
    ensures
        text@ == exact_change(snapshot@, figures@),
{
    if snapshot.comparable {
        figures.change_pp.clone()
    } else {
        "".to_owned()
    }
}

/// A count of test code, where it is kept.
pub open spec fn test_number(count: Option<usize>) -> Seq<char> {
    match count {
        Some(n) => decimal(n as nat),
        None => ""@,
    }
}

fn add_test_number(fields: &mut Vec<String>, count: Option<usize>)
    ensures
        texts(final(fields)@) == texts(old(fields)@).push(test_number(count)),
{
    match count {
        Some(n) => {
            add_number(fields, n);
        },
        None => {
            add_text(fields, "");
        },
    }
}

/// The names of the fields on test code.
pub open spec fn test_header() -> Seq<Seq<char>> {
    seq![
        "test_exclusion_json"@,
        "test_excluded_entries"@,
        "syntax_test_files"@,
        "test_excluded_functions"@,
        "test_excluded_source_lines"@,
    ]
}

/// The fields on test code.
pub open spec fn test_fields(policy_json: Seq<char>, s: SnapshotModel) -> Seq<Seq<char>> {
    seq![
        policy_json,
        test_number(s.coverage.test_excluded_entries),
        test_number(s.coverage.syntax_test_files),
        test_number(s.coverage.test_excluded_functions),
        test_number(s.coverage.test_excluded_source_lines),
    ]
}

/// The policy on test code as JSON, where it is left out.
pub open spec fn policy_text(policy: Option<TestExclusionPolicy>) -> Seq<char> {
    match policy {
        Some(policy) => exclusion_policy_json(policy@),
        None => ""@,
    }
}

fn policy_json(policy: &Option<TestExclusionPolicy>) -> (text: String)
    ensures
        text@ == policy_text(*policy),
{
    match policy {
        Some(policy) => policy.json(),
        None => "".to_owned(),
    }
}

fn add_test_header(fields: &mut Vec<String>)
    ensures
        texts(final(fields)@) == texts(old(fields)@) + test_header(),
{
    let ghost before = texts(fields@);
    add_text(fields, "test_exclusion_json");
    add_text(fields, "test_excluded_entries");
    add_text(fields, "syntax_test_files");
    add_text(fields, "test_excluded_functions");
    add_text(fields, "test_excluded_source_lines");
    assert(texts(fields@) =~= before + test_header());
}

fn add_test_fields(fields: &mut Vec<String>, policy_json: &str, snapshot: &Snapshot)
    ensures
        texts(final(fields)@) == texts(old(fields)@) + test_fields(policy_json@, snapshot@),
{
    let ghost before = texts(fields@);
    let coverage = &snapshot.coverage;
    add_text(fields, policy_json);
    add_test_number(fields, coverage.test_excluded_entries);
    add_test_number(fields, coverage.syntax_test_files);
    add_test_number(fields, coverage.test_excluded_functions);
    add_test_number(fields, coverage.test_excluded_source_lines);
    assert(texts(fields@) =~= before + test_fields(policy_json@, snapshot@));
}

/// The names of the fields of a report.
pub open spec fn report_header() -> Seq<Seq<char>> {
    seq![
        "schema_version"@,
        "tool_version"@,
        "metric_version"@,
        "analyzer_fingerprint"@,
        "parser_versions"@,
        "scope_fingerprint"@,
        "scope_json"@,
        "reference_sha"@,
        "cutoff_utc"@,
        "commit"@,
        "committed_at"@,
        "status"@,
        "selected_files"@,
        "parsed_files"@,
        "failed_files"@,
        "unsupported_files"@,
        "excluded_entries"@,
        "non_regular_entries"@,
        "parsed_physical_lines"@,
        "failed_physical_lines"@,
        "parsed_source_lines"@,
        "functions"@,
        "complex_functions"@,
        "total_mass"@,
        "complex_mass"@,
        "erosion_pct"@,
        "change_pp"@,
        "languages_json"@,
        "unsupported_extensions_json"@,
        "failures_json"@,
    ]
}

/// The fields of a snapshot in a report.
pub open spec fn report_fields(
    report: Report,
    s: SnapshotModel,
    f: FiguresModel,
    c: ColumnsModel,
) -> Seq<Seq<char>> {
    seq![
        decimal(report.schema_version as nat),
        report.tool_version@,
        report.metric@.version,
        report.metric@.analyzer_fingerprint,
        report.metric@.parser_versions,
        report.scope_fingerprint@,
        config_json(report.scope@),
        report.reference@.sha,
        shown_rfc3339(s.cutoff_utc),
        commit_id(s),
        commit_time(s),
        s.status.name(),
        decimal(s.coverage.selected_files as nat),
        decimal(s.coverage.parsed_files as nat),
        decimal(s.coverage.failed_files as nat),
        decimal(s.coverage.unsupported_files as nat),
        decimal(s.coverage.excluded_entries as nat),
        decimal(s.coverage.non_regular_entries as nat),
        decimal(s.coverage.parsed_physical_lines as nat),
        decimal(s.coverage.failed_physical_lines as nat),
        decimal(s.coverage.parsed_source_lines as nat),
        decimal(s.functions as nat),
        decimal(s.complex_functions as nat),
        f.total_mass,
        f.complex_mass,
        exact_score(s, f),
        exact_change(s, f),
        c.languages_json,
        c.unsupported_extensions_json,
        c.failures_json,
    ]
}

/// With the fields on test code, where it is left out.
pub open spec fn extended(
    fields: Seq<Seq<char>>,
    excludes: bool,
    more: Seq<Seq<char>>,
) -> Seq<Seq<char>> {
    if excludes {
        fields + more
    } else {
        fields
    }
}

/// The record of one snapshot of a report.
pub open spec fn report_record(
    report: Report,
    s: SnapshotModel,
    f: FiguresModel,
    c: ColumnsModel,
) -> Seq<Seq<char>> {
    extended(
        report_fields(report, s, f, c),
        report.test_exclusion is Some,
        test_fields(policy_text(report.test_exclusion), s),
    )
}

/// The names and the first `n` records of a report.
pub open spec fn report_records(
    report: Report,
    figures: Seq<FiguresModel>,
    columns: Seq<ColumnsModel>,
    n: int,
) -> Seq<u8>
    decreases n,
{
    if n <= 0 {
        csv_line(extended(report_header(), report.test_exclusion is Some, test_header()))
    } else {
        report_records(report, figures, columns, n - 1) + csv_line(
            report_record(
                report,
                snapshot_models(report.snapshots@)[n - 1],
                figures[n - 1],
                columns[n - 1],
            ),
        )
    }
}

fn header_fields(excludes: bool) -> (fields: Vec<String>)
    ensures
        texts(fields@) == extended(report_header(), excludes, test_header()),
{
    let mut fields = no_fields();
    add_text(&mut fields, "schema_version");
    add_text(&mut fields, "tool_version");
    add_text(&mut fields, "metric_version");
    add_text(&mut fields, "analyzer_fingerprint");
    add_text(&mut fields, "parser_versions");
    add_text(&mut fields, "scope_fingerprint");
    add_text(&mut fields, "scope_json");
    add_text(&mut fields, "reference_sha");
    add_text(&mut fields, "cutoff_utc");
    add_text(&mut fields, "commit");
    add_text(&mut fields, "committed_at");
    add_text(&mut fields, "status");
    add_text(&mut fields, "selected_files");
    add_text(&mut fields, "parsed_files");
    add_text(&mut fields, "failed_files");
    add_text(&mut fields, "unsupported_files");
    add_text(&mut fields, "excluded_entries");
    add_text(&mut fields, "non_regular_entries");
    add_text(&mut fields, "parsed_physical_lines");
    add_text(&mut fields, "failed_physical_lines");
    add_text(&mut fields, "parsed_source_lines");
    add_text(&mut fields, "functions");
    add_text(&mut fields, "complex_functions");
    add_text(&mut fields, "total_mass");
    add_text(&mut fields, "complex_mass");
    add_text(&mut fields, "erosion_pct");
    add_text(&mut fields, "change_pp");
    add_text(&mut fields, "languages_json");
    add_text(&mut fields, "unsupported_extensions_json");
    add_text(&mut fields, "failures_json");
    assert(texts(fields@) =~= report_header());
    if excludes {
        add_test_header(&mut fields);
    }
    fields
}

#[verifier::rlimit(50)]
fn record_fields(
    report: &Report,
    snapshot: &Snapshot,
    figures: &Figures,
    columns: &Columns,
    policy_json: &str,
) -> (fields: Vec<String>)
    requires
        policy_json@ == policy_text(report.test_exclusion),
    ensures
        texts(fields@) == report_record(*report, snapshot@, figures@, columns@),
{
    let coverage = &snapshot.coverage;
    let mut fields = no_fields();
    add_text(&mut fields, decimal_text(report.schema_version as u64).as_str());
    add_text(&mut fields, report.tool_version);
    add_text(&mut fields, report.metric.version);
    add_text(&mut fields, report.metric.analyzer_fingerprint.as_str());
    add_text(&mut fields, report.metric.parser_versions);
    add_text(&mut fields, report.scope_fingerprint.as_str());
    add_text(&mut fields, report.scope.json().as_str());
    add_text(&mut fields, report.reference.sha.as_str());
    add_text(&mut fields, rfc3339_text(snapshot.cutoff_utc).as_str());
    add_text(&mut fields, commit_id_text(snapshot).as_str());
    add_text(&mut fields, commit_time_text(snapshot).as_str());
    add_text(&mut fields, snapshot.status.id());
    add_number(&mut fields, coverage.selected_files);
    add_number(&mut fields, coverage.parsed_files);
    add_number(&mut fields, coverage.failed_files);
    add_number(&mut fields, coverage.unsupported_files);
    add_number(&mut fields, coverage.excluded_entries);
    add_number(&mut fields, coverage.non_regular_entries);
    add_number(&mut fields, coverage.parsed_physical_lines);
    add_number(&mut fields, coverage.failed_physical_lines);
    add_number(&mut fields, coverage.parsed_source_lines);
    add_number(&mut fields, snapshot.functions);
    add_number(&mut fields, snapshot.complex_functions);
    add_text(&mut fields, figures.total_mass.as_str());
    add_text(&mut fields, figures.complex_mass.as_str());
    add_text(&mut fields, exact_score_text(snapshot, figures).as_str());
    add_text(&mut fields, exact_change_text(snapshot, figures).as_str());
    add_text(&mut fields, columns.languages_json.as_str());
    add_text(&mut fields, columns.unsupported_extensions_json.as_str());
    add_text(&mut fields, columns.failures_json.as_str());
    assert(texts(fields@) =~= report_fields(*report, snapshot@, figures@, columns@));
    if report.test_exclusion.is_some() {
        add_test_fields(&mut fields, policy_json, snapshot);
    }
    fields
}

fn append_record(bytes: &mut Vec<u8>, fields: &Vec<String>)
    ensures
        final(bytes)@ == old(bytes)@ + csv_line(texts(fields@)),
{
    let mut record = match csv_record(fields) {
        Some(record) => record,
        None => Vec::new(),
    };
    bytes.append(&mut record);
}

/// A report as CSV: the names of the fields, then a record for each snapshot.
pub fn csv(report: &Report, figures: &Vec<Figures>, columns: &Vec<Columns>) -> (bytes: Vec<u8>)
    requires
        figures@.len() == report.snapshots@.len(),
        columns@.len() == report.snapshots@.len(),
    ensures
        bytes@ == report_records(
            *report,
            figures_models(figures@),
            columns_models(columns@),
            report.snapshots@.len() as int,
        ),
{
    let ghost models = snapshot_models(report.snapshots@);
    let ghost shown = figures_models(figures@);
    let ghost parts = columns_models(columns@);
    let policy = policy_json(&report.test_exclusion);
    let names = header_fields(report.test_exclusion.is_some());
    let mut bytes: Vec<u8> = Vec::new();
    append_record(&mut bytes, &names);
    assert(bytes@ =~= report_records(*report, shown, parts, 0));
    let mut k: usize = 0;
    while k < report.snapshots.len()
        invariant
            figures@.len() == report.snapshots@.len(),
            columns@.len() == report.snapshots@.len(),
            models == snapshot_models(report.snapshots@),
            shown == figures_models(figures@),
            parts == columns_models(columns@),
            policy@ == policy_text(report.test_exclusion),
            k <= report.snapshots@.len(),
            bytes@ == report_records(*report, shown, parts, k as int),
        decreases report.snapshots@.len() - k,
    {
        assert(models[k as int] == report.snapshots@[k as int]@);
        assert(shown[k as int] == figures@[k as int]@);
        assert(parts[k as int] == columns@[k as int]@);
        let fields = record_fields(
            report,
            &report.snapshots[k],
            &figures[k],
            &columns[k],
            policy.as_str(),
        );
        append_record(&mut bytes, &fields);
        k = k + 1;
    }
    bytes
}

/// Every record of a report has a field for every name.
pub proof fn records_fit_the_header(
    report: Report,
    s: SnapshotModel,
    f: FiguresModel,
    c: ColumnsModel,
)
    ensures
        report_record(report, s, f, c).len() == extended(
            report_header(),
            report.test_exclusion is Some,
            test_header(),
        ).len(),
{
}

/// The names of the fields of a report on modules.
pub open spec fn modules_header() -> Seq<Seq<char>> {
    seq![
        "schema_version"@,
        "tool_version"@,
        "mode"@,
        "metric_version"@,
        "analyzer_fingerprint"@,
        "parser_versions"@,
        "metric_json"@,
        "grouping_fingerprint"@,
        "grouping_json"@,
        "file_scope"@,
        "discovered_modules"@,
        "reference_sha"@,
        "reference_committed_at"@,
        "reference_json"@,
        "module"@,
        "cutoff_utc"@,
        "commit"@,
        "committed_at"@,
        "status"@,
        "tracked_entries"@,
        "selected_files"@,
        "parsed_files"@,
        "failed_files"@,
        "unsupported_files"@,
        "excluded_entries"@,
        "non_regular_entries"@,
        "parsed_physical_lines"@,
        "failed_physical_lines"@,
        "parsed_source_lines"@,
        "coverage_json"@,
        "repository_tracked_entries"@,
        "outside_depth_entries"@,
        "unselected_module_entries"@,
        "selected_module_entries"@,
        "functions"@,
        "complex_functions"@,
        "total_mass"@,
        "complex_mass"@,
        "erosion_pct"@,
        "change_pp"@,
        "failures_json"@,
    ]
}

/// The fields of a snapshot in a report on modules.
pub open spec fn module_fields(
    report: ModuleReport,
    path: Seq<char>,
    i: ModuleInventory,
    s: SnapshotModel,
    f: FiguresModel,
    c: ColumnsModel,
    metric_json: Seq<char>,
    reference_json: Seq<char>,
) -> Seq<Seq<char>> {
    seq![
        decimal(report.schema_version as nat),
        report.tool_version@,
        report.mode@,
        report.metric@.version,
        report.metric@.analyzer_fingerprint,
        report.metric@.parser_versions,
        metric_json,
        report.grouping_fingerprint@,
        module_config_json(report.grouping@),
        report.file_scope@,
        decimal(report.discovered_modules as nat),
        report.reference@.sha,
        shown_rfc3339(report.reference@.committed_at),
        reference_json,
        path,
        shown_rfc3339(s.cutoff_utc),
        commit_id(s),
        commit_time(s),
        s.status.name(),
        decimal(s.coverage.tracked_entries as nat),
        decimal(s.coverage.selected_files as nat),
        decimal(s.coverage.parsed_files as nat),
        decimal(s.coverage.failed_files as nat),
        decimal(s.coverage.unsupported_files as nat),
        decimal(s.coverage.excluded_entries as nat),
        decimal(s.coverage.non_regular_entries as nat),
        decimal(s.coverage.parsed_physical_lines as nat),
        decimal(s.coverage.failed_physical_lines as nat),
        decimal(s.coverage.parsed_source_lines as nat),
        c.coverage_json,
        decimal(i.tracked_entries as nat),
        decimal(i.outside_depth_entries as nat),
        decimal(i.unselected_module_entries as nat),
        decimal(i.selected_module_entries as nat),
        decimal(s.functions as nat),
        decimal(s.complex_functions as nat),
        f.total_mass,
        f.complex_mass,
        exact_score(s, f),
        exact_change(s, f),
        c.failures_json,
    ]
}

/// The record of one snapshot of a module.
pub open spec fn module_record(
    report: ModuleReport,
    path: Seq<char>,
    i: ModuleInventory,
    s: SnapshotModel,
    f: FiguresModel,
    c: ColumnsModel,
    metric_json: Seq<char>,
    reference_json: Seq<char>,
) -> Seq<Seq<char>> {
    extended(
        module_fields(report, path, i, s, f, c, metric_json, reference_json),
        report.test_exclusion is Some,
        test_fields(policy_text(report.test_exclusion), s),
    )
}

/// Every record of a report on modules has a field for every name.
pub proof fn module_records_fit_the_header(
    report: ModuleReport,
    path: Seq<char>,
    i: ModuleInventory,
    s: SnapshotModel,
    f: FiguresModel,
    c: ColumnsModel,
    metric_json: Seq<char>,
    reference_json: Seq<char>,
)
    ensures
        module_record(report, path, i, s, f, c, metric_json, reference_json).len() == extended(
            modules_header(),
            report.test_exclusion is Some,
            test_header(),
        ).len(),
{
}

/// The first `n` records of one module.
pub open spec fn series_records(
    report: ModuleReport,
    one: SeriesModel,
    figures: Seq<FiguresModel>,
    columns: Seq<ColumnsModel>,
    metric_json: Seq<char>,
    reference_json: Seq<char>,
    n: int,
) -> Seq<u8>
    decreases n,
{
    if n <= 0 {
        Seq::empty()
    } else {
        series_records(report, one, figures, columns, metric_json, reference_json, n - 1)
            + csv_line(
            module_record(
                report,
                one.path,
                report.inventory@[n - 1],
                one.snapshots[n - 1],
                figures[n - 1],
                columns[n - 1],
                metric_json,
                reference_json,
            ),
        )
    }
}

/// The names and the records of the first `n` modules.
pub open spec fn modules_records(
    report: ModuleReport,
    figures: Seq<Seq<FiguresModel>>,
    columns: Seq<Seq<ColumnsModel>>,
    metric_json: Seq<char>,
    reference_json: Seq<char>,
    n: int,
) -> Seq<u8>
    decreases n,
{
    if n <= 0 {
        csv_line(extended(modules_header(), report.test_exclusion is Some, test_header()))
    } else {
        let one = series_models(report.modules@)[n - 1];
        modules_records(report, figures, columns, metric_json, reference_json, n - 1)
            + series_records(
            report,
            one,
            figures[n - 1],
            columns[n - 1],
            metric_json,
            reference_json,
            one.snapshots.len() as int,
        )
    }
}

fn modules_header_fields(excludes: bool) -> (fields: Vec<String>)
    ensures
        texts(fields@) == extended(modules_header(), excludes, test_header()),
{
    let mut fields = no_fields();
    add_text(&mut fields, "schema_version");
    add_text(&mut fields, "tool_version");
    add_text(&mut fields, "mode");
    add_text(&mut fields, "metric_version");
    add_text(&mut fields, "analyzer_fingerprint");
    add_text(&mut fields, "parser_versions");
    add_text(&mut fields, "metric_json");
    add_text(&mut fields, "grouping_fingerprint");
    add_text(&mut fields, "grouping_json");
    add_text(&mut fields, "file_scope");
    add_text(&mut fields, "discovered_modules");
    add_text(&mut fields, "reference_sha");
    add_text(&mut fields, "reference_committed_at");
    add_text(&mut fields, "reference_json");
    add_text(&mut fields, "module");
    add_text(&mut fields, "cutoff_utc");
    add_text(&mut fields, "commit");
    add_text(&mut fields, "committed_at");
    add_text(&mut fields, "status");
    add_text(&mut fields, "tracked_entries");
    add_text(&mut fields, "selected_files");
    add_text(&mut fields, "parsed_files");
    add_text(&mut fields, "failed_files");
    add_text(&mut fields, "unsupported_files");
    add_text(&mut fields, "excluded_entries");
    add_text(&mut fields, "non_regular_entries");
    add_text(&mut fields, "parsed_physical_lines");
    add_text(&mut fields, "failed_physical_lines");
    add_text(&mut fields, "parsed_source_lines");
    add_text(&mut fields, "coverage_json");
    add_text(&mut fields, "repository_tracked_entries");
    add_text(&mut fields, "outside_depth_entries");
    add_text(&mut fields, "unselected_module_entries");
    add_text(&mut fields, "selected_module_entries");
    add_text(&mut fields, "functions");
    add_text(&mut fields, "complex_functions");
    add_text(&mut fields, "total_mass");
    add_text(&mut fields, "complex_mass");
    add_text(&mut fields, "erosion_pct");
    add_text(&mut fields, "change_pp");
    add_text(&mut fields, "failures_json");
    assert(texts(fields@) =~= modules_header());
    if excludes {
        add_test_header(&mut fields);
    }
    fields
}

#[verifier::rlimit(50)]
fn module_record_fields(
    report: &ModuleReport,
    path: &str,
    inventory: &ModuleInventory,
    snapshot: &Snapshot,
    figures: &Figures,
    columns: &Columns,
    metric_json: &str,
    reference_json: &str,
    policy_json: &str,
) -> (fields: Vec<String>)
    requires
        policy_json@ == policy_text(report.test_exclusion),
    ensures
        texts(fields@) == module_record(
            *report,
            path@,
            *inventory,
            snapshot@,
            figures@,
            columns@,
            metric_json@,
            reference_json@,
        ),
{
    let coverage = &snapshot.coverage;
    let mut fields = no_fields();
    add_text(&mut fields, decimal_text(report.schema_version as u64).as_str());
    add_text(&mut fields, report.tool_version);
    add_text(&mut fields, report.mode);
    add_text(&mut fields, report.metric.version);
    add_text(&mut fields, report.metric.analyzer_fingerprint.as_str());
    add_text(&mut fields, report.metric.parser_versions);
    add_text(&mut fields, metric_json);
    add_text(&mut fields, report.grouping_fingerprint.as_str());
    add_text(&mut fields, report.grouping.json().as_str());
    add_text(&mut fields, report.file_scope);
    add_number(&mut fields, report.discovered_modules);
    add_text(&mut fields, report.reference.sha.as_str());
    add_text(&mut fields, rfc3339_text(report.reference.committed_at).as_str());
    add_text(&mut fields, reference_json);
    add_text(&mut fields, path);
    add_text(&mut fields, rfc3339_text(snapshot.cutoff_utc).as_str());
    add_text(&mut fields, commit_id_text(snapshot).as_str());
    add_text(&mut fields, commit_time_text(snapshot).as_str());
    add_text(&mut fields, snapshot.status.id());
    add_number(&mut fields, coverage.tracked_entries);
    add_number(&mut fields, coverage.selected_files);
    add_number(&mut fields, coverage.parsed_files);
    add_number(&mut fields, coverage.failed_files);
    add_number(&mut fields, coverage.unsupported_files);
    add_number(&mut fields, coverage.excluded_entries);
    add_number(&mut fields, coverage.non_regular_entries);
    add_number(&mut fields, coverage.parsed_physical_lines);
    add_number(&mut fields, coverage.failed_physical_lines);
    add_number(&mut fields, coverage.parsed_source_lines);
    add_text(&mut fields, columns.coverage_json.as_str());
    add_number(&mut fields, inventory.tracked_entries);
    add_number(&mut fields, inventory.outside_depth_entries);
    add_number(&mut fields, inventory.unselected_module_entries);
    add_number(&mut fields, inventory.selected_module_entries);
    add_number(&mut fields, snapshot.functions);
    add_number(&mut fields, snapshot.complex_functions);
    add_text(&mut fields, figures.total_mass.as_str());
    add_text(&mut fields, figures.complex_mass.as_str());
    add_text(&mut fields, exact_score_text(snapshot, figures).as_str());
    add_text(&mut fields, exact_change_text(snapshot, figures).as_str());
    add_text(&mut fields, columns.failures_json.as_str());
    assert(texts(fields@) =~= module_fields(
        *report,
        path@,
        *inventory,
        snapshot@,
        figures@,
        columns@,
        metric_json@,
        reference_json@,
    ));
    if report.test_exclusion.is_some() {
        add_test_fields(&mut fields, policy_json, snapshot);
    }
    fields
}

/// There are texts for every snapshot of every module, and an inventory for
/// every checkpoint.
pub open spec fn modules_recordable(
    report: ModuleReport,
    figures: Seq<Vec<Figures>>,
    columns: Seq<Vec<Columns>>,
) -> bool {
    &&& figures.len() == report.modules@.len()
    &&& columns.len() == report.modules@.len()
    &&& forall|k: int|
        0 <= k < report.modules@.len() ==> {
            let n = (#[trigger] report.modules@[k]).snapshots@.len();
            figures[k]@.len() == n && columns[k]@.len() == n && n <= report.inventory@.len()
        }
}

/// There are texts for every snapshot of every module, and an inventory for
/// every checkpoint.
pub fn modules_are_recordable(
    report: &ModuleReport,
    figures: &Vec<Vec<Figures>>,
    columns: &Vec<Vec<Columns>>,
) -> (r: bool)
    ensures
        r == modules_recordable(*report, figures@, columns@),
{
    if figures.len() != report.modules.len() || columns.len() != report.modules.len() {
        return false;
    }
    let mut k: usize = 0;
    while k < report.modules.len()
        invariant
            figures@.len() == report.modules@.len(),
            columns@.len() == report.modules@.len(),
            k <= report.modules@.len(),
            forall|i: int|
                0 <= i < k ==> {
                    let n = (#[trigger] report.modules@[i]).snapshots@.len();
                    figures@[i]@.len() == n && columns@[i]@.len() == n && n
                        <= report.inventory@.len()
                },
        decreases report.modules@.len() - k,
    {
        let n: usize = report.modules[k].snapshots.len();
        if figures[k].len() != n || columns[k].len() != n || n > report.inventory.len() {
            return false;
        }
        k = k + 1;
    }
    true
}

fn append_series(
    bytes: &mut Vec<u8>,
    report: &ModuleReport,
    one: &ModuleSeries,
    figures: &Vec<Figures>,
    columns: &Vec<Columns>,
    metric_json: &str,
    reference_json: &str,
    policy_json: &str,
)
    requires
        figures@.len() == one.snapshots@.len(),
        columns@.len() == one.snapshots@.len(),
        one.snapshots@.len() <= report.inventory@.len(),
        policy_json@ == policy_text(report.test_exclusion),
    ensures
        final(bytes)@ == old(bytes)@ + series_records(
            *report,
            one@,
            figures_models(figures@),
            columns_models(columns@),
            metric_json@,
            reference_json@,
            one.snapshots@.len() as int,
        ),
{
    let ghost before = bytes@;
    let ghost model = one@;
    let ghost shown = figures_models(figures@);
    let ghost parts = columns_models(columns@);
    let mut k: usize = 0;
    assert(before + Seq::<u8>::empty() =~= before);
    while k < one.snapshots.len()
        invariant
            figures@.len() == one.snapshots@.len(),
            columns@.len() == one.snapshots@.len(),
            one.snapshots@.len() <= report.inventory@.len(),
            policy_json@ == policy_text(report.test_exclusion),
            model == one@,
            shown == figures_models(figures@),
            parts == columns_models(columns@),
            k <= one.snapshots@.len(),
            bytes@ == before + series_records(
                *report,
                model,
                shown,
                parts,
                metric_json@,
                reference_json@,
                k as int,
            ),
        decreases one.snapshots@.len() - k,
    {
        assert(model.snapshots[k as int] == one.snapshots@[k as int]@);
        assert(shown[k as int] == figures@[k as int]@);
        assert(parts[k as int] == columns@[k as int]@);
        let fields = module_record_fields(
            report,
            one.path.as_str(),
            &report.inventory[k],
            &one.snapshots[k],
            &figures[k],
            &columns[k],
            metric_json,
            reference_json,
            policy_json,
        );
        append_record(bytes, &fields);
        k = k + 1;
        assert(bytes@ =~= before + series_records(
            *report,
            model,
            shown,
            parts,
            metric_json@,
            reference_json@,
            k as int,
        ));
    }
}

/// A report on modules as CSV: the names of the fields, then a record for each
/// snapshot of each module, with the inventory of its checkpoint.
pub fn modules_csv(
    report: &ModuleReport,
    figures: &Vec<Vec<Figures>>,
    columns: &Vec<Vec<Columns>>,
    metric_json: &str,
    reference_json: &str,
) -> (bytes: Vec<u8>)
    requires
        modules_recordable(*report, figures@, columns@),
    ensures
        bytes@ == modules_records(
            *report,
            all_figures_models(figures@),
            all_columns_models(columns@),
            metric_json@,
            reference_json@,
            report.modules@.len() as int,
        ),
{
    let ghost models = series_models(report.modules@);
    let ghost shown = all_figures_models(figures@);
    let ghost parts = all_columns_models(columns@);
    let policy = policy_json(&report.test_exclusion);
    let names = modules_header_fields(report.test_exclusion.is_some());
    let mut bytes: Vec<u8> = Vec::new();
    append_record(&mut bytes, &names);
    assert(bytes@ =~= modules_records(*report, shown, parts, metric_json@, reference_json@, 0));
    let mut k: usize = 0;
    while k < report.modules.len()
        invariant
            modules_recordable(*report, figures@, columns@),
            models == series_models(report.modules@),
            shown == all_figures_models(figures@),
            parts == all_columns_models(columns@),
            policy@ == policy_text(report.test_exclusion),
            k <= report.modules@.len(),
            bytes@ == modules_records(
                *report,
                shown,
                parts,
                metric_json@,
                reference_json@,
                k as int,
            ),
        decreases report.modules@.len() - k,
    {
        let one: &ModuleSeries = &report.modules[k];
        assert(models[k as int] == one@);
        assert(shown[k as int] == figures_models(figures@[k as int]@));
        assert(parts[k as int] == columns_models(columns@[k as int]@));
        assert(one@.snapshots.len() == report.modules@[k as int].snapshots@.len());
        append_series(
            &mut bytes,
            report,
            one,
            &figures[k],
            &columns[k],
            metric_json,
            reference_json,
            policy.as_str(),
        );
        k = k + 1;
    }
    bytes
}

} // verus!
