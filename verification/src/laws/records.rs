//! What stands in which column of a record.

use vstd::prelude::*;
use vstd::utf8::*;

use crate::calendar::shown_rfc3339;
use crate::config::config_json;
use crate::format::decimal;
use crate::modules::{module_config_json, ModuleInventory, ModuleReport, SeriesModel};
use crate::output::FiguresModel;
use crate::records::{
    csv_field, csv_fields, csv_line, doubled, is_csv_special, module_fields, module_record,
    modules_header, modules_records, policy_text, report_fields, report_header, report_record,
    report_records, series_records, test_fields, test_header, ColumnsModel,
};
use crate::report::Report;
use crate::snapshot::SnapshotModel;

verus! {

/// Each field of a record stands in the column that the header gives its name.
pub proof fn report_columns(report: Report, s: SnapshotModel, f: FiguresModel, c: ColumnsModel, k: int)
    requires
        0 <= k < report_header().len(),
    ensures
        report_fields(report, s, f, c).len() == report_header().len() == 30,
        report_header()[k] == "schema_version"@ ==> report_fields(report, s, f, c)[k] == (decimal(report.schema_version as nat)),
        report_header()[k] == "tool_version"@ ==> report_fields(report, s, f, c)[k] == (report.tool_version@),
        report_header()[k] == "metric_version"@ ==> report_fields(report, s, f, c)[k] == (report.metric@.version),
        report_header()[k] == "analyzer_fingerprint"@ ==> report_fields(report, s, f, c)[k] == (report.metric@.analyzer_fingerprint),
        report_header()[k] == "parser_versions"@ ==> report_fields(report, s, f, c)[k] == (report.metric@.parser_versions),
        report_header()[k] == "scope_fingerprint"@ ==> report_fields(report, s, f, c)[k] == (report.scope_fingerprint@),
        report_header()[k] == "scope_json"@ ==> report_fields(report, s, f, c)[k] == (config_json(report.scope@)),
        report_header()[k] == "reference_sha"@ ==> report_fields(report, s, f, c)[k] == (report.reference@.sha),
        report_header()[k] == "cutoff_utc"@ ==> report_fields(report, s, f, c)[k] == (shown_rfc3339(s.cutoff_utc)),
        report_header()[k] == "commit"@ ==> report_fields(report, s, f, c)[k] == (match s.commit { Some(commit) => commit.sha, None => Seq::empty() }),
        report_header()[k] == "committed_at"@ ==> report_fields(report, s, f, c)[k] == (match s.commit { Some(commit) => shown_rfc3339(commit.committed_at), None => Seq::empty() }),
        report_header()[k] == "status"@ ==> report_fields(report, s, f, c)[k] == (s.status.name()),
        report_header()[k] == "selected_files"@ ==> report_fields(report, s, f, c)[k] == (decimal(s.coverage.selected_files as nat)),
        report_header()[k] == "parsed_files"@ ==> report_fields(report, s, f, c)[k] == (decimal(s.coverage.parsed_files as nat)),
        report_header()[k] == "failed_files"@ ==> report_fields(report, s, f, c)[k] == (decimal(s.coverage.failed_files as nat)),
        report_header()[k] == "unsupported_files"@ ==> report_fields(report, s, f, c)[k] == (decimal(s.coverage.unsupported_files as nat)),
        report_header()[k] == "excluded_entries"@ ==> report_fields(report, s, f, c)[k] == (decimal(s.coverage.excluded_entries as nat)),
        report_header()[k] == "non_regular_entries"@ ==> report_fields(report, s, f, c)[k] == (decimal(s.coverage.non_regular_entries as nat)),
        report_header()[k] == "parsed_physical_lines"@ ==> report_fields(report, s, f, c)[k] == (decimal(s.coverage.parsed_physical_lines as nat)),
        report_header()[k] == "failed_physical_lines"@ ==> report_fields(report, s, f, c)[k] == (decimal(s.coverage.failed_physical_lines as nat)),
        report_header()[k] == "parsed_source_lines"@ ==> report_fields(report, s, f, c)[k] == (decimal(s.coverage.parsed_source_lines as nat)),
        report_header()[k] == "functions"@ ==> report_fields(report, s, f, c)[k] == (decimal(s.functions as nat)),
        report_header()[k] == "complex_functions"@ ==> report_fields(report, s, f, c)[k] == (decimal(s.complex_functions as nat)),
        report_header()[k] == "total_mass"@ ==> report_fields(report, s, f, c)[k] == (f.total_mass),
        report_header()[k] == "complex_mass"@ ==> report_fields(report, s, f, c)[k] == (f.complex_mass),
        report_header()[k] == "erosion_pct"@ ==> report_fields(report, s, f, c)[k] == (if s.measurable { f.erosion_pct } else { Seq::empty() }),
        report_header()[k] == "change_pp"@ ==> report_fields(report, s, f, c)[k] == (if s.comparable { f.change_pp } else { Seq::empty() }),
        report_header()[k] == "languages_json"@ ==> report_fields(report, s, f, c)[k] == (c.languages_json),
        report_header()[k] == "unsupported_extensions_json"@ ==> report_fields(report, s, f, c)[k] == (c.unsupported_extensions_json),
        report_header()[k] == "failures_json"@ ==> report_fields(report, s, f, c)[k] == (c.failures_json),
{
    reveal_strlit("schema_version");
    reveal_strlit("tool_version");
    reveal_strlit("metric_version");
    reveal_strlit("analyzer_fingerprint");
    reveal_strlit("parser_versions");
    reveal_strlit("scope_fingerprint");
    reveal_strlit("scope_json");
    reveal_strlit("reference_sha");
    reveal_strlit("cutoff_utc");
    reveal_strlit("commit");
    reveal_strlit("committed_at");
    reveal_strlit("status");
    reveal_strlit("selected_files");
    reveal_strlit("parsed_files");
    reveal_strlit("failed_files");
    reveal_strlit("unsupported_files");
    reveal_strlit("excluded_entries");
    reveal_strlit("non_regular_entries");
    reveal_strlit("parsed_physical_lines");
    reveal_strlit("failed_physical_lines");
    reveal_strlit("parsed_source_lines");
    reveal_strlit("functions");
    reveal_strlit("complex_functions");
    reveal_strlit("total_mass");
    reveal_strlit("complex_mass");
    reveal_strlit("erosion_pct");
    reveal_strlit("change_pp");
    reveal_strlit("languages_json");
    reveal_strlit("unsupported_extensions_json");
    reveal_strlit("failures_json");
    assert("schema_version"@.len() == 14 && "schema_version"@[2] == 'h');
    assert("metric_version"@.len() == 14 && "metric_version"@[2] == 't');
    assert("selected_files"@.len() == 14 && "selected_files"@[2] == 'l');
    assert("languages_json"@.len() == 14 && "languages_json"@[2] == 'n');
    assert("tool_version"@.len() == 12 && "tool_version"@[0] == 't' && "tool_version"@[3] == 'l');
    assert("committed_at"@.len() == 12 && "committed_at"@[0] == 'c' && "committed_at"@[3] == 'm');
    assert("parsed_files"@.len() == 12 && "parsed_files"@[0] == 'p' && "parsed_files"@[3] == 's');
    assert("failed_files"@.len() == 12 && "failed_files"@[0] == 'f' && "failed_files"@[3] == 'l');
    assert("complex_mass"@.len() == 12 && "complex_mass"@[0] == 'c' && "complex_mass"@[3] == 'p');
    assert("analyzer_fingerprint"@.len() == 20);
    assert("parser_versions"@.len() == 15);
    assert("scope_fingerprint"@.len() == 17 && "scope_fingerprint"@[0] == 's');
    assert("unsupported_files"@.len() == 17 && "unsupported_files"@[0] == 'u');
    assert("complex_functions"@.len() == 17 && "complex_functions"@[0] == 'c');
    assert("scope_json"@.len() == 10 && "scope_json"@[0] == 's');
    assert("cutoff_utc"@.len() == 10 && "cutoff_utc"@[0] == 'c');
    assert("total_mass"@.len() == 10 && "total_mass"@[0] == 't');
    assert("reference_sha"@.len() == 13 && "reference_sha"@[0] == 'r');
    assert("failures_json"@.len() == 13 && "failures_json"@[0] == 'f');
    assert("commit"@.len() == 6 && "commit"@[0] == 'c');
    assert("status"@.len() == 6 && "status"@[0] == 's');
    assert("excluded_entries"@.len() == 16);
    assert("non_regular_entries"@.len() == 19 && "non_regular_entries"@[0] == 'n');
    assert("parsed_source_lines"@.len() == 19 && "parsed_source_lines"@[0] == 'p');
    assert("parsed_physical_lines"@.len() == 21 && "parsed_physical_lines"@[0] == 'p');
    assert("failed_physical_lines"@.len() == 21 && "failed_physical_lines"@[0] == 'f');
    assert("functions"@.len() == 9 && "functions"@[0] == 'f');
    assert("change_pp"@.len() == 9 && "change_pp"@[0] == 'c');
    assert("erosion_pct"@.len() == 11);
    assert("unsupported_extensions_json"@.len() == 27);
    reveal_strlit("");
    assert(""@ =~= Seq::empty());
    if k == 0 {
        assert(report_header()[k] == "schema_version"@);
    } else if k == 1 {
        assert(report_header()[k] == "tool_version"@);
    } else if k == 2 {
        assert(report_header()[k] == "metric_version"@);
    } else if k == 3 {
        assert(report_header()[k] == "analyzer_fingerprint"@);
    } else if k == 4 {
        assert(report_header()[k] == "parser_versions"@);
    } else if k == 5 {
        assert(report_header()[k] == "scope_fingerprint"@);
    } else if k == 6 {
        assert(report_header()[k] == "scope_json"@);
    } else if k == 7 {
        assert(report_header()[k] == "reference_sha"@);
    } else if k == 8 {
        assert(report_header()[k] == "cutoff_utc"@);
    } else if k == 9 {
        assert(report_header()[k] == "commit"@);
    } else if k == 10 {
        assert(report_header()[k] == "committed_at"@);
    } else if k == 11 {
        assert(report_header()[k] == "status"@);
    } else if k == 12 {
        assert(report_header()[k] == "selected_files"@);
    } else if k == 13 {
        assert(report_header()[k] == "parsed_files"@);
    } else if k == 14 {
        assert(report_header()[k] == "failed_files"@);
    } else if k == 15 {
        assert(report_header()[k] == "unsupported_files"@);
    } else if k == 16 {
        assert(report_header()[k] == "excluded_entries"@);
    } else if k == 17 {
        assert(report_header()[k] == "non_regular_entries"@);
    } else if k == 18 {
        assert(report_header()[k] == "parsed_physical_lines"@);
    } else if k == 19 {
        assert(report_header()[k] == "failed_physical_lines"@);
    } else if k == 20 {
        assert(report_header()[k] == "parsed_source_lines"@);
    } else if k == 21 {
        assert(report_header()[k] == "functions"@);
    } else if k == 22 {
        assert(report_header()[k] == "complex_functions"@);
    } else if k == 23 {
        assert(report_header()[k] == "total_mass"@);
    } else if k == 24 {
        assert(report_header()[k] == "complex_mass"@);
    } else if k == 25 {
        assert(report_header()[k] == "erosion_pct"@);
    } else if k == 26 {
        assert(report_header()[k] == "change_pp"@);
    } else if k == 27 {
        assert(report_header()[k] == "languages_json"@);
    } else if k == 28 {
        assert(report_header()[k] == "unsupported_extensions_json"@);
    } else if k == 29 {
        assert(report_header()[k] == "failures_json"@);
    }
}

/// The columns of a report, each once.
pub proof fn report_column_names()
    ensures
        report_header().contains("schema_version"@),
        report_header().contains("tool_version"@),
        report_header().contains("metric_version"@),
        report_header().contains("analyzer_fingerprint"@),
        report_header().contains("parser_versions"@),
        report_header().contains("scope_fingerprint"@),
        report_header().contains("scope_json"@),
        report_header().contains("reference_sha"@),
        report_header().contains("cutoff_utc"@),
        report_header().contains("commit"@),
        report_header().contains("committed_at"@),
        report_header().contains("status"@),
        report_header().contains("selected_files"@),
        report_header().contains("parsed_files"@),
        report_header().contains("failed_files"@),
        report_header().contains("unsupported_files"@),
        report_header().contains("excluded_entries"@),
        report_header().contains("non_regular_entries"@),
        report_header().contains("parsed_physical_lines"@),
        report_header().contains("failed_physical_lines"@),
        report_header().contains("parsed_source_lines"@),
        report_header().contains("functions"@),
        report_header().contains("complex_functions"@),
        report_header().contains("total_mass"@),
        report_header().contains("complex_mass"@),
        report_header().contains("erosion_pct"@),
        report_header().contains("change_pp"@),
        report_header().contains("languages_json"@),
        report_header().contains("unsupported_extensions_json"@),
        report_header().contains("failures_json"@),
        report_header().no_duplicates(),
{
    reveal_strlit("schema_version");
    reveal_strlit("tool_version");
    reveal_strlit("metric_version");
    reveal_strlit("analyzer_fingerprint");
    reveal_strlit("parser_versions");
    reveal_strlit("scope_fingerprint");
    reveal_strlit("scope_json");
    reveal_strlit("reference_sha");
    reveal_strlit("cutoff_utc");
    reveal_strlit("commit");
    reveal_strlit("committed_at");
    reveal_strlit("status");
    reveal_strlit("selected_files");
    reveal_strlit("parsed_files");
    reveal_strlit("failed_files");
    reveal_strlit("unsupported_files");
    reveal_strlit("excluded_entries");
    reveal_strlit("non_regular_entries");
    reveal_strlit("parsed_physical_lines");
    reveal_strlit("failed_physical_lines");
    reveal_strlit("parsed_source_lines");
    reveal_strlit("functions");
    reveal_strlit("complex_functions");
    reveal_strlit("total_mass");
    reveal_strlit("complex_mass");
    reveal_strlit("erosion_pct");
    reveal_strlit("change_pp");
    reveal_strlit("languages_json");
    reveal_strlit("unsupported_extensions_json");
    reveal_strlit("failures_json");
    assert("schema_version"@.len() == 14 && "schema_version"@[2] == 'h');
    assert("metric_version"@.len() == 14 && "metric_version"@[2] == 't');
    assert("selected_files"@.len() == 14 && "selected_files"@[2] == 'l');
    assert("languages_json"@.len() == 14 && "languages_json"@[2] == 'n');
    assert("tool_version"@.len() == 12 && "tool_version"@[0] == 't' && "tool_version"@[3] == 'l');
    assert("committed_at"@.len() == 12 && "committed_at"@[0] == 'c' && "committed_at"@[3] == 'm');
    assert("parsed_files"@.len() == 12 && "parsed_files"@[0] == 'p' && "parsed_files"@[3] == 's');
    assert("failed_files"@.len() == 12 && "failed_files"@[0] == 'f' && "failed_files"@[3] == 'l');
    assert("complex_mass"@.len() == 12 && "complex_mass"@[0] == 'c' && "complex_mass"@[3] == 'p');
    assert("analyzer_fingerprint"@.len() == 20);
    assert("parser_versions"@.len() == 15);
    assert("scope_fingerprint"@.len() == 17 && "scope_fingerprint"@[0] == 's');
    assert("unsupported_files"@.len() == 17 && "unsupported_files"@[0] == 'u');
    assert("complex_functions"@.len() == 17 && "complex_functions"@[0] == 'c');
    assert("scope_json"@.len() == 10 && "scope_json"@[0] == 's');
    assert("cutoff_utc"@.len() == 10 && "cutoff_utc"@[0] == 'c');
    assert("total_mass"@.len() == 10 && "total_mass"@[0] == 't');
    assert("reference_sha"@.len() == 13 && "reference_sha"@[0] == 'r');
    assert("failures_json"@.len() == 13 && "failures_json"@[0] == 'f');
    assert("commit"@.len() == 6 && "commit"@[0] == 'c');
    assert("status"@.len() == 6 && "status"@[0] == 's');
    assert("excluded_entries"@.len() == 16);
    assert("non_regular_entries"@.len() == 19 && "non_regular_entries"@[0] == 'n');
    assert("parsed_source_lines"@.len() == 19 && "parsed_source_lines"@[0] == 'p');
    assert("parsed_physical_lines"@.len() == 21 && "parsed_physical_lines"@[0] == 'p');
    assert("failed_physical_lines"@.len() == 21 && "failed_physical_lines"@[0] == 'f');
    assert("functions"@.len() == 9 && "functions"@[0] == 'f');
    assert("change_pp"@.len() == 9 && "change_pp"@[0] == 'c');
    assert("erosion_pct"@.len() == 11);
    assert("unsupported_extensions_json"@.len() == 27);
    assert(report_header()[0] == "schema_version"@);
    assert(report_header()[1] == "tool_version"@);
    assert(report_header()[2] == "metric_version"@);
    assert(report_header()[3] == "analyzer_fingerprint"@);
    assert(report_header()[4] == "parser_versions"@);
    assert(report_header()[5] == "scope_fingerprint"@);
    assert(report_header()[6] == "scope_json"@);
    assert(report_header()[7] == "reference_sha"@);
    assert(report_header()[8] == "cutoff_utc"@);
    assert(report_header()[9] == "commit"@);
    assert(report_header()[10] == "committed_at"@);
    assert(report_header()[11] == "status"@);
    assert(report_header()[12] == "selected_files"@);
    assert(report_header()[13] == "parsed_files"@);
    assert(report_header()[14] == "failed_files"@);
    assert(report_header()[15] == "unsupported_files"@);
    assert(report_header()[16] == "excluded_entries"@);
    assert(report_header()[17] == "non_regular_entries"@);
    assert(report_header()[18] == "parsed_physical_lines"@);
    assert(report_header()[19] == "failed_physical_lines"@);
    assert(report_header()[20] == "parsed_source_lines"@);
    assert(report_header()[21] == "functions"@);
    assert(report_header()[22] == "complex_functions"@);
    assert(report_header()[23] == "total_mass"@);
    assert(report_header()[24] == "complex_mass"@);
    assert(report_header()[25] == "erosion_pct"@);
    assert(report_header()[26] == "change_pp"@);
    assert(report_header()[27] == "languages_json"@);
    assert(report_header()[28] == "unsupported_extensions_json"@);
    assert(report_header()[29] == "failures_json"@);
}

/// Each field of a record of a module stands in the column that the header gives its name.
pub proof fn module_columns(report: ModuleReport, path: Seq<char>, i: ModuleInventory, s: SnapshotModel, f: FiguresModel, c: ColumnsModel, metric_json: Seq<char>, reference_json: Seq<char>, k: int)
    requires
        0 <= k < modules_header().len(),
    ensures
        module_fields(report, path, i, s, f, c, metric_json, reference_json).len() == modules_header().len() == 41,
        modules_header()[k] == "schema_version"@ ==> module_fields(report, path, i, s, f, c, metric_json, reference_json)[k] == (decimal(report.schema_version as nat)),
        modules_header()[k] == "tool_version"@ ==> module_fields(report, path, i, s, f, c, metric_json, reference_json)[k] == (report.tool_version@),
        modules_header()[k] == "mode"@ ==> module_fields(report, path, i, s, f, c, metric_json, reference_json)[k] == (report.mode@),
        modules_header()[k] == "metric_version"@ ==> module_fields(report, path, i, s, f, c, metric_json, reference_json)[k] == (report.metric@.version),
        modules_header()[k] == "analyzer_fingerprint"@ ==> module_fields(report, path, i, s, f, c, metric_json, reference_json)[k] == (report.metric@.analyzer_fingerprint),
        modules_header()[k] == "parser_versions"@ ==> module_fields(report, path, i, s, f, c, metric_json, reference_json)[k] == (report.metric@.parser_versions),
        modules_header()[k] == "metric_json"@ ==> module_fields(report, path, i, s, f, c, metric_json, reference_json)[k] == (metric_json),
        modules_header()[k] == "grouping_fingerprint"@ ==> module_fields(report, path, i, s, f, c, metric_json, reference_json)[k] == (report.grouping_fingerprint@),
        modules_header()[k] == "grouping_json"@ ==> module_fields(report, path, i, s, f, c, metric_json, reference_json)[k] == (module_config_json(report.grouping@)),
        modules_header()[k] == "file_scope"@ ==> module_fields(report, path, i, s, f, c, metric_json, reference_json)[k] == (report.file_scope@),
        modules_header()[k] == "discovered_modules"@ ==> module_fields(report, path, i, s, f, c, metric_json, reference_json)[k] == (decimal(report.discovered_modules as nat)),
        modules_header()[k] == "reference_sha"@ ==> module_fields(report, path, i, s, f, c, metric_json, reference_json)[k] == (report.reference@.sha),
        modules_header()[k] == "reference_committed_at"@ ==> module_fields(report, path, i, s, f, c, metric_json, reference_json)[k] == (shown_rfc3339(report.reference@.committed_at)),
        modules_header()[k] == "reference_json"@ ==> module_fields(report, path, i, s, f, c, metric_json, reference_json)[k] == (reference_json),
        modules_header()[k] == "module"@ ==> module_fields(report, path, i, s, f, c, metric_json, reference_json)[k] == (path),
        modules_header()[k] == "cutoff_utc"@ ==> module_fields(report, path, i, s, f, c, metric_json, reference_json)[k] == (shown_rfc3339(s.cutoff_utc)),
        modules_header()[k] == "commit"@ ==> module_fields(report, path, i, s, f, c, metric_json, reference_json)[k] == (match s.commit { Some(commit) => commit.sha, None => Seq::empty() }),
        modules_header()[k] == "committed_at"@ ==> module_fields(report, path, i, s, f, c, metric_json, reference_json)[k] == (match s.commit { Some(commit) => shown_rfc3339(commit.committed_at), None => Seq::empty() }),
        modules_header()[k] == "status"@ ==> module_fields(report, path, i, s, f, c, metric_json, reference_json)[k] == (s.status.name()),
        modules_header()[k] == "tracked_entries"@ ==> module_fields(report, path, i, s, f, c, metric_json, reference_json)[k] == (decimal(s.coverage.tracked_entries as nat)),
        modules_header()[k] == "selected_files"@ ==> module_fields(report, path, i, s, f, c, metric_json, reference_json)[k] == (decimal(s.coverage.selected_files as nat)),
        modules_header()[k] == "parsed_files"@ ==> module_fields(report, path, i, s, f, c, metric_json, reference_json)[k] == (decimal(s.coverage.parsed_files as nat)),
        modules_header()[k] == "failed_files"@ ==> module_fields(report, path, i, s, f, c, metric_json, reference_json)[k] == (decimal(s.coverage.failed_files as nat)),
        modules_header()[k] == "unsupported_files"@ ==> module_fields(report, path, i, s, f, c, metric_json, reference_json)[k] == (decimal(s.coverage.unsupported_files as nat)),
        modules_header()[k] == "excluded_entries"@ ==> module_fields(report, path, i, s, f, c, metric_json, reference_json)[k] == (decimal(s.coverage.excluded_entries as nat)),
        modules_header()[k] == "non_regular_entries"@ ==> module_fields(report, path, i, s, f, c, metric_json, reference_json)[k] == (decimal(s.coverage.non_regular_entries as nat)),
        modules_header()[k] == "parsed_physical_lines"@ ==> module_fields(report, path, i, s, f, c, metric_json, reference_json)[k] == (decimal(s.coverage.parsed_physical_lines as nat)),
        modules_header()[k] == "failed_physical_lines"@ ==> module_fields(report, path, i, s, f, c, metric_json, reference_json)[k] == (decimal(s.coverage.failed_physical_lines as nat)),
        modules_header()[k] == "parsed_source_lines"@ ==> module_fields(report, path, i, s, f, c, metric_json, reference_json)[k] == (decimal(s.coverage.parsed_source_lines as nat)),
        modules_header()[k] == "coverage_json"@ ==> module_fields(report, path, i, s, f, c, metric_json, reference_json)[k] == (c.coverage_json),
        modules_header()[k] == "repository_tracked_entries"@ ==> module_fields(report, path, i, s, f, c, metric_json, reference_json)[k] == (decimal(i.tracked_entries as nat)),
        modules_header()[k] == "outside_depth_entries"@ ==> module_fields(report, path, i, s, f, c, metric_json, reference_json)[k] == (decimal(i.outside_depth_entries as nat)),
        modules_header()[k] == "unselected_module_entries"@ ==> module_fields(report, path, i, s, f, c, metric_json, reference_json)[k] == (decimal(i.unselected_module_entries as nat)),
        modules_header()[k] == "selected_module_entries"@ ==> module_fields(report, path, i, s, f, c, metric_json, reference_json)[k] == (decimal(i.selected_module_entries as nat)),
        modules_header()[k] == "functions"@ ==> module_fields(report, path, i, s, f, c, metric_json, reference_json)[k] == (decimal(s.functions as nat)),
        modules_header()[k] == "complex_functions"@ ==> module_fields(report, path, i, s, f, c, metric_json, reference_json)[k] == (decimal(s.complex_functions as nat)),
        modules_header()[k] == "total_mass"@ ==> module_fields(report, path, i, s, f, c, metric_json, reference_json)[k] == (f.total_mass),
        modules_header()[k] == "complex_mass"@ ==> module_fields(report, path, i, s, f, c, metric_json, reference_json)[k] == (f.complex_mass),
        modules_header()[k] == "erosion_pct"@ ==> module_fields(report, path, i, s, f, c, metric_json, reference_json)[k] == (if s.measurable { f.erosion_pct } else { Seq::empty() }),
        modules_header()[k] == "change_pp"@ ==> module_fields(report, path, i, s, f, c, metric_json, reference_json)[k] == (if s.comparable { f.change_pp } else { Seq::empty() }),
        modules_header()[k] == "failures_json"@ ==> module_fields(report, path, i, s, f, c, metric_json, reference_json)[k] == (c.failures_json),
{
    reveal_strlit("schema_version");
    reveal_strlit("tool_version");
    reveal_strlit("mode");
    reveal_strlit("metric_version");
    reveal_strlit("analyzer_fingerprint");
    reveal_strlit("parser_versions");
    reveal_strlit("metric_json");
    reveal_strlit("grouping_fingerprint");
    reveal_strlit("grouping_json");
    reveal_strlit("file_scope");
    reveal_strlit("discovered_modules");
    reveal_strlit("reference_sha");
    reveal_strlit("reference_committed_at");
    reveal_strlit("reference_json");
    reveal_strlit("module");
    reveal_strlit("cutoff_utc");
    reveal_strlit("commit");
    reveal_strlit("committed_at");
    reveal_strlit("status");
    reveal_strlit("tracked_entries");
    reveal_strlit("selected_files");
    reveal_strlit("parsed_files");
    reveal_strlit("failed_files");
    reveal_strlit("unsupported_files");
    reveal_strlit("excluded_entries");
    reveal_strlit("non_regular_entries");
    reveal_strlit("parsed_physical_lines");
    reveal_strlit("failed_physical_lines");
    reveal_strlit("parsed_source_lines");
    reveal_strlit("coverage_json");
    reveal_strlit("repository_tracked_entries");
    reveal_strlit("outside_depth_entries");
    reveal_strlit("unselected_module_entries");
    reveal_strlit("selected_module_entries");
    reveal_strlit("functions");
    reveal_strlit("complex_functions");
    reveal_strlit("total_mass");
    reveal_strlit("complex_mass");
    reveal_strlit("erosion_pct");
    reveal_strlit("change_pp");
    reveal_strlit("failures_json");
    assert("schema_version"@.len() == 14 && "schema_version"@[2] == 'h');
    assert("metric_version"@.len() == 14 && "metric_version"@[2] == 't');
    assert("reference_json"@.len() == 14 && "reference_json"@[2] == 'f');
    assert("selected_files"@.len() == 14 && "selected_files"@[2] == 'l');
    assert("tool_version"@.len() == 12 && "tool_version"@[0] == 't' && "tool_version"@[3] == 'l');
    assert("committed_at"@.len() == 12 && "committed_at"@[0] == 'c' && "committed_at"@[3] == 'm');
    assert("parsed_files"@.len() == 12 && "parsed_files"@[0] == 'p' && "parsed_files"@[3] == 's');
    assert("failed_files"@.len() == 12 && "failed_files"@[0] == 'f' && "failed_files"@[3] == 'l');
    assert("complex_mass"@.len() == 12 && "complex_mass"@[0] == 'c' && "complex_mass"@[3] == 'p');
    assert("mode"@.len() == 4);
    assert("analyzer_fingerprint"@.len() == 20 && "analyzer_fingerprint"@[0] == 'a');
    assert("grouping_fingerprint"@.len() == 20 && "grouping_fingerprint"@[0] == 'g');
    assert("parser_versions"@.len() == 15 && "parser_versions"@[0] == 'p');
    assert("tracked_entries"@.len() == 15 && "tracked_entries"@[0] == 't');
    assert("metric_json"@.len() == 11 && "metric_json"@[0] == 'm');
    assert("erosion_pct"@.len() == 11 && "erosion_pct"@[0] == 'e');
    assert("grouping_json"@.len() == 13 && "grouping_json"@[0] == 'g');
    assert("reference_sha"@.len() == 13 && "reference_sha"@[0] == 'r');
    assert("coverage_json"@.len() == 13 && "coverage_json"@[0] == 'c');
    assert("failures_json"@.len() == 13 && "failures_json"@[0] == 'f');
    assert("file_scope"@.len() == 10 && "file_scope"@[0] == 'f');
    assert("cutoff_utc"@.len() == 10 && "cutoff_utc"@[0] == 'c');
    assert("total_mass"@.len() == 10 && "total_mass"@[0] == 't');
    assert("discovered_modules"@.len() == 18);
    assert("reference_committed_at"@.len() == 22);
    assert("module"@.len() == 6 && "module"@[0] == 'm');
    assert("commit"@.len() == 6 && "commit"@[0] == 'c');
    assert("status"@.len() == 6 && "status"@[0] == 's');
    assert("unsupported_files"@.len() == 17 && "unsupported_files"@[0] == 'u');
    assert("complex_functions"@.len() == 17 && "complex_functions"@[0] == 'c');
    assert("excluded_entries"@.len() == 16);
    assert("non_regular_entries"@.len() == 19 && "non_regular_entries"@[0] == 'n');
    assert("parsed_source_lines"@.len() == 19 && "parsed_source_lines"@[0] == 'p');
    assert("parsed_physical_lines"@.len() == 21 && "parsed_physical_lines"@[0] == 'p');
    assert("failed_physical_lines"@.len() == 21 && "failed_physical_lines"@[0] == 'f');
    assert("outside_depth_entries"@.len() == 21 && "outside_depth_entries"@[0] == 'o');
    assert("repository_tracked_entries"@.len() == 26);
    assert("unselected_module_entries"@.len() == 25);
    assert("selected_module_entries"@.len() == 23);
    assert("functions"@.len() == 9 && "functions"@[0] == 'f');
    assert("change_pp"@.len() == 9 && "change_pp"@[0] == 'c');
    reveal_strlit("");
    assert(""@ =~= Seq::empty());
    if k == 0 {
        assert(modules_header()[k] == "schema_version"@);
    } else if k == 1 {
        assert(modules_header()[k] == "tool_version"@);
    } else if k == 2 {
        assert(modules_header()[k] == "mode"@);
    } else if k == 3 {
        assert(modules_header()[k] == "metric_version"@);
    } else if k == 4 {
        assert(modules_header()[k] == "analyzer_fingerprint"@);
    } else if k == 5 {
        assert(modules_header()[k] == "parser_versions"@);
    } else if k == 6 {
        assert(modules_header()[k] == "metric_json"@);
    } else if k == 7 {
        assert(modules_header()[k] == "grouping_fingerprint"@);
    } else if k == 8 {
        assert(modules_header()[k] == "grouping_json"@);
    } else if k == 9 {
        assert(modules_header()[k] == "file_scope"@);
    } else if k == 10 {
        assert(modules_header()[k] == "discovered_modules"@);
    } else if k == 11 {
        assert(modules_header()[k] == "reference_sha"@);
    } else if k == 12 {
        assert(modules_header()[k] == "reference_committed_at"@);
    } else if k == 13 {
        assert(modules_header()[k] == "reference_json"@);
    } else if k == 14 {
        assert(modules_header()[k] == "module"@);
    } else if k == 15 {
        assert(modules_header()[k] == "cutoff_utc"@);
    } else if k == 16 {
        assert(modules_header()[k] == "commit"@);
    } else if k == 17 {
        assert(modules_header()[k] == "committed_at"@);
    } else if k == 18 {
        assert(modules_header()[k] == "status"@);
    } else if k == 19 {
        assert(modules_header()[k] == "tracked_entries"@);
    } else if k == 20 {
        assert(modules_header()[k] == "selected_files"@);
    } else if k == 21 {
        assert(modules_header()[k] == "parsed_files"@);
    } else if k == 22 {
        assert(modules_header()[k] == "failed_files"@);
    } else if k == 23 {
        assert(modules_header()[k] == "unsupported_files"@);
    } else if k == 24 {
        assert(modules_header()[k] == "excluded_entries"@);
    } else if k == 25 {
        assert(modules_header()[k] == "non_regular_entries"@);
    } else if k == 26 {
        assert(modules_header()[k] == "parsed_physical_lines"@);
    } else if k == 27 {
        assert(modules_header()[k] == "failed_physical_lines"@);
    } else if k == 28 {
        assert(modules_header()[k] == "parsed_source_lines"@);
    } else if k == 29 {
        assert(modules_header()[k] == "coverage_json"@);
    } else if k == 30 {
        assert(modules_header()[k] == "repository_tracked_entries"@);
    } else if k == 31 {
        assert(modules_header()[k] == "outside_depth_entries"@);
    } else if k == 32 {
        assert(modules_header()[k] == "unselected_module_entries"@);
    } else if k == 33 {
        assert(modules_header()[k] == "selected_module_entries"@);
    } else if k == 34 {
        assert(modules_header()[k] == "functions"@);
    } else if k == 35 {
        assert(modules_header()[k] == "complex_functions"@);
    } else if k == 36 {
        assert(modules_header()[k] == "total_mass"@);
    } else if k == 37 {
        assert(modules_header()[k] == "complex_mass"@);
    } else if k == 38 {
        assert(modules_header()[k] == "erosion_pct"@);
    } else if k == 39 {
        assert(modules_header()[k] == "change_pp"@);
    } else if k == 40 {
        assert(modules_header()[k] == "failures_json"@);
    }
}

/// The columns of a report on modules, each once.
pub proof fn module_column_names()
    ensures
        modules_header().contains("schema_version"@),
        modules_header().contains("tool_version"@),
        modules_header().contains("mode"@),
        modules_header().contains("metric_version"@),
        modules_header().contains("analyzer_fingerprint"@),
        modules_header().contains("parser_versions"@),
        modules_header().contains("metric_json"@),
        modules_header().contains("grouping_fingerprint"@),
        modules_header().contains("grouping_json"@),
        modules_header().contains("file_scope"@),
        modules_header().contains("discovered_modules"@),
        modules_header().contains("reference_sha"@),
        modules_header().contains("reference_committed_at"@),
        modules_header().contains("reference_json"@),
        modules_header().contains("module"@),
        modules_header().contains("cutoff_utc"@),
        modules_header().contains("commit"@),
        modules_header().contains("committed_at"@),
        modules_header().contains("status"@),
        modules_header().contains("tracked_entries"@),
        modules_header().contains("selected_files"@),
        modules_header().contains("parsed_files"@),
        modules_header().contains("failed_files"@),
        modules_header().contains("unsupported_files"@),
        modules_header().contains("excluded_entries"@),
        modules_header().contains("non_regular_entries"@),
        modules_header().contains("parsed_physical_lines"@),
        modules_header().contains("failed_physical_lines"@),
        modules_header().contains("parsed_source_lines"@),
        modules_header().contains("coverage_json"@),
        modules_header().contains("repository_tracked_entries"@),
        modules_header().contains("outside_depth_entries"@),
        modules_header().contains("unselected_module_entries"@),
        modules_header().contains("selected_module_entries"@),
        modules_header().contains("functions"@),
        modules_header().contains("complex_functions"@),
        modules_header().contains("total_mass"@),
        modules_header().contains("complex_mass"@),
        modules_header().contains("erosion_pct"@),
        modules_header().contains("change_pp"@),
        modules_header().contains("failures_json"@),
        modules_header().no_duplicates(),
{
    reveal_strlit("schema_version");
    reveal_strlit("tool_version");
    reveal_strlit("mode");
    reveal_strlit("metric_version");
    reveal_strlit("analyzer_fingerprint");
    reveal_strlit("parser_versions");
    reveal_strlit("metric_json");
    reveal_strlit("grouping_fingerprint");
    reveal_strlit("grouping_json");
    reveal_strlit("file_scope");
    reveal_strlit("discovered_modules");
    reveal_strlit("reference_sha");
    reveal_strlit("reference_committed_at");
    reveal_strlit("reference_json");
    reveal_strlit("module");
    reveal_strlit("cutoff_utc");
    reveal_strlit("commit");
    reveal_strlit("committed_at");
    reveal_strlit("status");
    reveal_strlit("tracked_entries");
    reveal_strlit("selected_files");
    reveal_strlit("parsed_files");
    reveal_strlit("failed_files");
    reveal_strlit("unsupported_files");
    reveal_strlit("excluded_entries");
    reveal_strlit("non_regular_entries");
    reveal_strlit("parsed_physical_lines");
    reveal_strlit("failed_physical_lines");
    reveal_strlit("parsed_source_lines");
    reveal_strlit("coverage_json");
    reveal_strlit("repository_tracked_entries");
    reveal_strlit("outside_depth_entries");
    reveal_strlit("unselected_module_entries");
    reveal_strlit("selected_module_entries");
    reveal_strlit("functions");
    reveal_strlit("complex_functions");
    reveal_strlit("total_mass");
    reveal_strlit("complex_mass");
    reveal_strlit("erosion_pct");
    reveal_strlit("change_pp");
    reveal_strlit("failures_json");
    assert("schema_version"@.len() == 14 && "schema_version"@[2] == 'h');
    assert("metric_version"@.len() == 14 && "metric_version"@[2] == 't');
    assert("reference_json"@.len() == 14 && "reference_json"@[2] == 'f');
    assert("selected_files"@.len() == 14 && "selected_files"@[2] == 'l');
    assert("tool_version"@.len() == 12 && "tool_version"@[0] == 't' && "tool_version"@[3] == 'l');
    assert("committed_at"@.len() == 12 && "committed_at"@[0] == 'c' && "committed_at"@[3] == 'm');
    assert("parsed_files"@.len() == 12 && "parsed_files"@[0] == 'p' && "parsed_files"@[3] == 's');
    assert("failed_files"@.len() == 12 && "failed_files"@[0] == 'f' && "failed_files"@[3] == 'l');
    assert("complex_mass"@.len() == 12 && "complex_mass"@[0] == 'c' && "complex_mass"@[3] == 'p');
    assert("mode"@.len() == 4);
    assert("analyzer_fingerprint"@.len() == 20 && "analyzer_fingerprint"@[0] == 'a');
    assert("grouping_fingerprint"@.len() == 20 && "grouping_fingerprint"@[0] == 'g');
    assert("parser_versions"@.len() == 15 && "parser_versions"@[0] == 'p');
    assert("tracked_entries"@.len() == 15 && "tracked_entries"@[0] == 't');
    assert("metric_json"@.len() == 11 && "metric_json"@[0] == 'm');
    assert("erosion_pct"@.len() == 11 && "erosion_pct"@[0] == 'e');
    assert("grouping_json"@.len() == 13 && "grouping_json"@[0] == 'g');
    assert("reference_sha"@.len() == 13 && "reference_sha"@[0] == 'r');
    assert("coverage_json"@.len() == 13 && "coverage_json"@[0] == 'c');
    assert("failures_json"@.len() == 13 && "failures_json"@[0] == 'f');
    assert("file_scope"@.len() == 10 && "file_scope"@[0] == 'f');
    assert("cutoff_utc"@.len() == 10 && "cutoff_utc"@[0] == 'c');
    assert("total_mass"@.len() == 10 && "total_mass"@[0] == 't');
    assert("discovered_modules"@.len() == 18);
    assert("reference_committed_at"@.len() == 22);
    assert("module"@.len() == 6 && "module"@[0] == 'm');
    assert("commit"@.len() == 6 && "commit"@[0] == 'c');
    assert("status"@.len() == 6 && "status"@[0] == 's');
    assert("unsupported_files"@.len() == 17 && "unsupported_files"@[0] == 'u');
    assert("complex_functions"@.len() == 17 && "complex_functions"@[0] == 'c');
    assert("excluded_entries"@.len() == 16);
    assert("non_regular_entries"@.len() == 19 && "non_regular_entries"@[0] == 'n');
    assert("parsed_source_lines"@.len() == 19 && "parsed_source_lines"@[0] == 'p');
    assert("parsed_physical_lines"@.len() == 21 && "parsed_physical_lines"@[0] == 'p');
    assert("failed_physical_lines"@.len() == 21 && "failed_physical_lines"@[0] == 'f');
    assert("outside_depth_entries"@.len() == 21 && "outside_depth_entries"@[0] == 'o');
    assert("repository_tracked_entries"@.len() == 26);
    assert("unselected_module_entries"@.len() == 25);
    assert("selected_module_entries"@.len() == 23);
    assert("functions"@.len() == 9 && "functions"@[0] == 'f');
    assert("change_pp"@.len() == 9 && "change_pp"@[0] == 'c');
    assert(modules_header()[0] == "schema_version"@);
    assert(modules_header()[1] == "tool_version"@);
    assert(modules_header()[2] == "mode"@);
    assert(modules_header()[3] == "metric_version"@);
    assert(modules_header()[4] == "analyzer_fingerprint"@);
    assert(modules_header()[5] == "parser_versions"@);
    assert(modules_header()[6] == "metric_json"@);
    assert(modules_header()[7] == "grouping_fingerprint"@);
    assert(modules_header()[8] == "grouping_json"@);
    assert(modules_header()[9] == "file_scope"@);
    assert(modules_header()[10] == "discovered_modules"@);
    assert(modules_header()[11] == "reference_sha"@);
    assert(modules_header()[12] == "reference_committed_at"@);
    assert(modules_header()[13] == "reference_json"@);
    assert(modules_header()[14] == "module"@);
    assert(modules_header()[15] == "cutoff_utc"@);
    assert(modules_header()[16] == "commit"@);
    assert(modules_header()[17] == "committed_at"@);
    assert(modules_header()[18] == "status"@);
    assert(modules_header()[19] == "tracked_entries"@);
    assert(modules_header()[20] == "selected_files"@);
    assert(modules_header()[21] == "parsed_files"@);
    assert(modules_header()[22] == "failed_files"@);
    assert(modules_header()[23] == "unsupported_files"@);
    assert(modules_header()[24] == "excluded_entries"@);
    assert(modules_header()[25] == "non_regular_entries"@);
    assert(modules_header()[26] == "parsed_physical_lines"@);
    assert(modules_header()[27] == "failed_physical_lines"@);
    assert(modules_header()[28] == "parsed_source_lines"@);
    assert(modules_header()[29] == "coverage_json"@);
    assert(modules_header()[30] == "repository_tracked_entries"@);
    assert(modules_header()[31] == "outside_depth_entries"@);
    assert(modules_header()[32] == "unselected_module_entries"@);
    assert(modules_header()[33] == "selected_module_entries"@);
    assert(modules_header()[34] == "functions"@);
    assert(modules_header()[35] == "complex_functions"@);
    assert(modules_header()[36] == "total_mass"@);
    assert(modules_header()[37] == "complex_mass"@);
    assert(modules_header()[38] == "erosion_pct"@);
    assert(modules_header()[39] == "change_pp"@);
    assert(modules_header()[40] == "failures_json"@);
}

/// Each count of left out test code stands in the column that the header gives its name.
pub proof fn test_columns(policy_json: Seq<char>, s: SnapshotModel, k: int)
    requires
        0 <= k < test_header().len(),
    ensures
        test_fields(policy_json, s).len() == test_header().len() == 5,
        test_header()[k] == "test_exclusion_json"@ ==> test_fields(policy_json, s)[k] == (policy_json),
        test_header()[k] == "test_excluded_entries"@ ==> test_fields(policy_json, s)[k] == (match s.coverage.test_excluded_entries { Some(n) => decimal(n as nat), None => Seq::empty() }),
        test_header()[k] == "syntax_test_files"@ ==> test_fields(policy_json, s)[k] == (match s.coverage.syntax_test_files { Some(n) => decimal(n as nat), None => Seq::empty() }),
        test_header()[k] == "test_excluded_functions"@ ==> test_fields(policy_json, s)[k] == (match s.coverage.test_excluded_functions { Some(n) => decimal(n as nat), None => Seq::empty() }),
        test_header()[k] == "test_excluded_source_lines"@ ==> test_fields(policy_json, s)[k] == (match s.coverage.test_excluded_source_lines { Some(n) => decimal(n as nat), None => Seq::empty() }),
{
    reveal_strlit("test_exclusion_json");
    reveal_strlit("test_excluded_entries");
    reveal_strlit("syntax_test_files");
    reveal_strlit("test_excluded_functions");
    reveal_strlit("test_excluded_source_lines");
    assert("test_exclusion_json"@.len() == 19);
    assert("test_excluded_entries"@.len() == 21);
    assert("syntax_test_files"@.len() == 17);
    assert("test_excluded_functions"@.len() == 23);
    assert("test_excluded_source_lines"@.len() == 26);
    reveal_strlit("");
    assert(""@ =~= Seq::empty());
    if k == 0 {
        assert(test_header()[k] == "test_exclusion_json"@);
    } else if k == 1 {
        assert(test_header()[k] == "test_excluded_entries"@);
    } else if k == 2 {
        assert(test_header()[k] == "syntax_test_files"@);
    } else if k == 3 {
        assert(test_header()[k] == "test_excluded_functions"@);
    } else if k == 4 {
        assert(test_header()[k] == "test_excluded_source_lines"@);
    }
}

/// The columns that say what was left out as test code, each once.
pub proof fn test_column_names()
    ensures
        test_header().contains("test_exclusion_json"@),
        test_header().contains("test_excluded_entries"@),
        test_header().contains("syntax_test_files"@),
        test_header().contains("test_excluded_functions"@),
        test_header().contains("test_excluded_source_lines"@),
        test_header().no_duplicates(),
{
    reveal_strlit("test_exclusion_json");
    reveal_strlit("test_excluded_entries");
    reveal_strlit("syntax_test_files");
    reveal_strlit("test_excluded_functions");
    reveal_strlit("test_excluded_source_lines");
    assert("test_exclusion_json"@.len() == 19);
    assert("test_excluded_entries"@.len() == 21);
    assert("syntax_test_files"@.len() == 17);
    assert("test_excluded_functions"@.len() == 23);
    assert("test_excluded_source_lines"@.len() == 26);
    assert(test_header()[0] == "test_exclusion_json"@);
    assert(test_header()[1] == "test_excluded_entries"@);
    assert(test_header()[2] == "syntax_test_files"@);
    assert(test_header()[3] == "test_excluded_functions"@);
    assert(test_header()[4] == "test_excluded_source_lines"@);
}

/// A record has the columns on test code behind the others, exactly where tests are
/// left out, and the header has them too.
pub proof fn test_columns_come_last(
    report: Report,
    s: SnapshotModel,
    f: FiguresModel,
    c: ColumnsModel,
    figures: Seq<FiguresModel>,
    columns: Seq<ColumnsModel>,
)
    ensures
        report.test_exclusion is None ==> report_record(report, s, f, c) == report_fields(
            report,
            s,
            f,
            c,
        ) && report_records(report, figures, columns, 0) == csv_line(report_header()),
        report.test_exclusion is Some ==> report_record(report, s, f, c) == report_fields(
            report,
            s,
            f,
            c,
        ) + test_fields(policy_text(report.test_exclusion), s) && report_records(
            report,
            figures,
            columns,
            0,
        ) == csv_line(report_header() + test_header()),
{
}

/// A report has a line for each snapshot, in their order, behind the header.
pub proof fn a_line_for_each_snapshot(
    report: Report,
    figures: Seq<FiguresModel>,
    columns: Seq<ColumnsModel>,
    n: int,
)
    requires
        0 <= n < report.snapshots@.len(),
    ensures
        report_records(report, figures, columns, n + 1) == report_records(
            report,
            figures,
            columns,
            n,
        ) + csv_line(report_record(report, report.snapshots@[n]@, figures[n], columns[n])),
{
}

/// A record of a module has the columns on test code behind the others, exactly where
/// tests are left out, and the header has them too.
pub proof fn test_columns_of_modules_come_last(
    report: ModuleReport,
    path: Seq<char>,
    i: ModuleInventory,
    s: SnapshotModel,
    f: FiguresModel,
    c: ColumnsModel,
    metric_json: Seq<char>,
    reference_json: Seq<char>,
    figures: Seq<Seq<FiguresModel>>,
    columns: Seq<Seq<ColumnsModel>>,
)
    ensures
        ({
            let record = module_record(
                report,
                path,
                i,
                s,
                f,
                c,
                metric_json,
                reference_json,
            );
            let fields = module_fields(report, path, i, s, f, c, metric_json, reference_json);
            let first = modules_records(report, figures, columns, metric_json, reference_json, 0);
            &&& report.test_exclusion is None ==> record == fields && first == csv_line(
                modules_header(),
            )
            &&& report.test_exclusion is Some ==> record == fields + test_fields(
                policy_text(report.test_exclusion),
                s,
            ) && first == csv_line(modules_header() + test_header())
        }),
{
}

/// A report on modules has, for each module in turn, a line for each of its snapshots,
/// with the inventory of the same checkpoint.
pub proof fn a_line_for_each_snapshot_of_a_module(
    report: ModuleReport,
    one: SeriesModel,
    figures: Seq<FiguresModel>,
    columns: Seq<ColumnsModel>,
    metric_json: Seq<char>,
    reference_json: Seq<char>,
    n: int,
)
    requires
        0 <= n < one.snapshots.len(),
    ensures
        series_records(report, one, figures, columns, metric_json, reference_json, 0).len() == 0,
        series_records(report, one, figures, columns, metric_json, reference_json, n + 1)
            == series_records(report, one, figures, columns, metric_json, reference_json, n)
            + csv_line(
            module_record(
                report,
                one.path,
                report.inventory@[n],
                one.snapshots[n],
                figures[n],
                columns[n],
                metric_json,
                reference_json,
            ),
        ),
{
}

/// The bytes that make a field be quoted: comma, quotation mark and both line ends.
pub proof fn quoted_bytes(b: u8)
    ensures
        is_csv_special(b) <==> b == ',' as u8 || b == '"' as u8 || b == '\n' as u8 || b
            == '\r' as u8,
{
    assert(',' as u8 == 44u8 && '"' as u8 == 34u8 && '\n' as u8 == 10u8 && '\r' as u8 == 13u8);
}

/// A field without such a byte is written as it is. Any other stands between quotation
/// marks, with its own quotation marks doubled and everything else as it is.
pub proof fn fields_are_quoted(field: Seq<u8>, b: u8)
    ensures
        csv_field(Seq::empty()).len() == 0,
        (forall|k: int| 0 <= k < field.len() ==> !is_csv_special(#[trigger] field[k]))
            ==> csv_field(field) == field,
        field.contains(',' as u8) || field.contains('"' as u8) || field.contains('\n' as u8)
            || field.contains('\r' as u8) ==> csv_field(field) == seq!['"' as u8] + doubled(field)
            + seq!['"' as u8],
        doubled(Seq::empty()).len() == 0,
        doubled(field.push('"' as u8)) == doubled(field) + seq!['"' as u8, '"' as u8],
        b != '"' as u8 ==> doubled(field.push(b)) == doubled(field).push(b),
{
    assert(',' as u8 == 44u8 && '"' as u8 == 34u8 && '\n' as u8 == 10u8 && '\r' as u8 == 13u8);
    assert(field.push(34u8).drop_last() =~= field);
    assert(field.push(b).drop_last() =~= field);
    if field.contains(44u8) || field.contains(34u8) || field.contains(10u8) || field.contains(
        13u8,
    ) {
        let k = choose|k: int|
            0 <= k < field.len() && (field[k] == 44u8 || field[k] == 34u8 || field[k] == 10u8
                || field[k] == 13u8);
        assert(is_csv_special(field[k]));
    }
}

/// The fields of a line stand in their order, with a comma between any two of them, and
/// a line feed ends the line.
pub proof fn fields_are_separated(fields: Seq<Seq<char>>, field: Seq<char>)
    ensures
        fields.len() > 0 ==> csv_fields(fields.push(field), (fields.len() + 1) as int)
            == csv_fields(fields, fields.len() as int) + seq![',' as u8] + csv_field(
            encode_utf8(field),
        ),
        csv_fields(seq![field], 1) == csv_field(encode_utf8(field)),
        csv_fields(fields, fields.len() as int).len() > 0 ==> csv_line(fields) == csv_fields(
            fields,
            fields.len() as int,
        ) + seq!['\n' as u8],
        csv_fields(fields, fields.len() as int).len() == 0 ==> csv_line(fields) == seq![
            '"' as u8,
            '"' as u8,
            '\n' as u8,
        ],
{
    assert(',' as u8 == 44u8 && '"' as u8 == 34u8 && '\n' as u8 == 10u8);
    lemma_fields_before(fields.push(field), fields, fields.len() as int);
    assert(seq![34u8, 34u8] + seq![10u8] =~= seq![34u8, 34u8, 10u8]);
}

proof fn lemma_fields_before(a: Seq<Seq<char>>, b: Seq<Seq<char>>, n: int)
    requires
        0 <= n <= a.len(),
        n <= b.len(),
        forall|k: int| 0 <= k < n ==> #[trigger] a[k] == b[k],
    ensures
        csv_fields(a, n) == csv_fields(b, n),
    decreases n,
{
    if n > 1 {
        lemma_fields_before(a, b, n - 1);
        assert(a[n - 1] == b[n - 1]);
    } else if n == 1 {
        assert(a[0] == b[0]);
    }
}

} // verus!
