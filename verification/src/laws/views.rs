//! What the fields of a value say of what it stands for.

use vstd::prelude::*;

verus! {

/// A function metrics is what its fields say, each under its own name.
pub proof fn function_metrics_fields(value: crate::metrics::FunctionMetrics)
    ensures
        value@.name == value.name@,
        value@.start_line == value.start_line,
        value@.end_line == value.end_line,
        value@.complexity == value.complexity,
        value@.source_lines == value.source_lines,
{
}

/// A parse diagnostic is what its fields say, each under its own name.
pub proof fn parse_diagnostic_fields(value: crate::metrics::ParseDiagnostic)
    ensures
        value@.line == value.line,
        value@.column == value.column,
        value@.message == value.message@,
{
}

/// A test region is what its fields say, each under its own name.
pub proof fn test_region_fields(value: crate::metrics::TestRegion)
    ensures
        value@.start_byte == value.start_byte,
        value@.end_byte == value.end_byte,
        value@.start_line == value.start_line,
        value@.end_line == value.end_line,
        value@.reason == value.reason@,
{
}

/// A test filtered analysis is what its fields say, each under its own name.
pub proof fn test_filtered_analysis_fields(value: crate::metrics::TestFilteredAnalysis)
    ensures
        value@.source_lines == value.source_lines,
        value@.functions.len() == value.functions@.len(),
        forall|k: int| 0 <= k < value.functions@.len() ==> #[trigger] value@.functions[k] == value.functions@[k]@,
        value@.regions.len() == value.regions@.len(),
        forall|k: int| 0 <= k < value.regions@.len() ==> #[trigger] value@.regions[k] == value.regions@[k]@,
{
}

/// A file analysis is what its fields say, each under its own name.
pub proof fn file_analysis_fields(value: crate::metrics::FileAnalysis)
    ensures
        value@.physical_lines == value.physical_lines,
        value@.source_lines == value.source_lines,
        value@.functions.len() == value.functions@.len(),
        forall|k: int| 0 <= k < value.functions@.len() ==> #[trigger] value@.functions[k] == value.functions@[k]@,
        value@.diagnostics.len() == value.diagnostics@.len(),
        forall|k: int| 0 <= k < value.diagnostics@.len() ==> #[trigger] value@.diagnostics[k] == value.diagnostics@[k]@,
        value.without_tests is None ==> value@.without_tests is None,
        value.without_tests is Some ==> value@.without_tests == Some(value.without_tests->0@),
{
}

/// A test exclusion analysis is what its fields say, each under its own name.
pub proof fn test_exclusion_analysis_fields(value: crate::metrics::TestExclusionAnalysis)
    ensures
        value.without_tests is None ==> value@.without_tests is None,
        value.without_tests is Some ==> value@.without_tests == Some(value.without_tests->0@),
{
}

/// A coverage is what its fields say, each under its own name.
pub proof fn coverage_fields(value: crate::snapshot::Coverage)
    ensures
        value@.tracked_entries == value.tracked_entries,
        value@.excluded_entries == value.excluded_entries,
        value@.test_excluded_entries == value.test_excluded_entries,
        value@.syntax_test_files == value.syntax_test_files,
        value@.test_excluded_functions == value.test_excluded_functions,
        value@.test_excluded_source_lines == value.test_excluded_source_lines,
        value@.non_regular_entries == value.non_regular_entries,
        value@.unsupported_files == value.unsupported_files,
        value@.unsupported_extensions == value.unsupported_extensions@,
        value@.selected_files == value.selected_files,
        value@.parsed_files == value.parsed_files,
        value@.failed_files == value.failed_files,
        value@.parsed_physical_lines == value.parsed_physical_lines,
        value@.failed_physical_lines == value.failed_physical_lines,
        value@.parsed_source_lines == value.parsed_source_lines,
        value@.languages == value.languages@,
{
}

/// A failed file is what its fields say, each under its own name.
pub proof fn failed_file_fields(value: crate::snapshot::FailedFile)
    ensures
        value@.path == value.path@,
        value@.language == value.language,
        value@.physical_lines == value.physical_lines,
        value@.diagnostics.len() == value.diagnostics@.len(),
        forall|k: int| 0 <= k < value.diagnostics@.len() ==> #[trigger] value@.diagnostics[k] == value.diagnostics@[k]@,
{
}

/// A top function is what its fields say, each under its own name.
pub proof fn top_function_fields(value: crate::snapshot::TopFunction)
    ensures
        value@.path == value.path@,
        value@.language == value.language,
        value@.function == value.function@,
        value@.rank == value.rank,
{
}

/// A snapshot is what its fields say, each under its own name.
pub proof fn snapshot_fields(value: crate::snapshot::Snapshot)
    ensures
        value@.cutoff_utc == value.cutoff_utc,
        value.commit is None ==> value@.commit is None,
        value.commit is Some ==> value@.commit == Some(value.commit->0@),
        value@.status == value.status,
        value@.coverage == value.coverage@,
        value@.functions == value.functions,
        value@.complex_functions == value.complex_functions,
        value@.measurable == value.measurable,
        value@.comparable == value.comparable,
        value@.failures.len() == value.failures@.len(),
        forall|k: int| 0 <= k < value.failures@.len() ==> #[trigger] value@.failures[k] == value.failures@[k]@,
        value@.top_functions.len() == value.top_functions@.len(),
        forall|k: int| 0 <= k < value.top_functions@.len() ==> #[trigger] value@.top_functions[k] == value.top_functions@[k]@,
{
}

/// A commit is what its fields say, each under its own name.
pub proof fn commit_fields(value: crate::git::Commit)
    ensures
        value@.sha == value.sha@,
        value@.committed_at == value.committed_at,
{
}

/// A tree entry is what its fields say, each under its own name.
pub proof fn tree_entry_fields(value: crate::git::TreeEntry)
    ensures
        value@.path == value.path@,
        value@.oid == value.oid@,
        value@.mode == value.mode@,
{
}

/// A figures is what its fields say, each under its own name.
pub proof fn figures_fields(value: crate::output::Figures)
    ensures
        value@.erosion == value.erosion@,
        value@.change == value.change@,
        value@.total_mass == value.total_mass@,
        value@.complex_mass == value.complex_mass@,
        value@.erosion_pct == value.erosion_pct@,
        value@.change_pp == value.change_pp@,
        value@.masses.len() == value.masses@.len(),
        forall|k: int| 0 <= k < value.masses@.len() ==> #[trigger] value@.masses[k] == value.masses@[k]@,
{
}

/// A columns is what its fields say, each under its own name.
pub proof fn columns_fields(value: crate::records::Columns)
    ensures
        value@.languages_json == value.languages_json@,
        value@.unsupported_extensions_json == value.unsupported_extensions_json@,
        value@.coverage_json == value.coverage_json@,
        value@.failures_json == value.failures_json@,
{
}

/// A metric identity is what its fields say, each under its own name.
pub proof fn metric_identity_fields(value: crate::report::MetricIdentity)
    ensures
        value@.name == value.name@,
        value@.version == value.version@,
        value@.analyzer_fingerprint == value.analyzer_fingerprint@,
        value@.parser_versions == value.parser_versions@,
        value@.complexity_threshold == value.complexity_threshold,
        value@.formula == value.formula@,
{
}

/// A module config is what its fields say, each under its own name.
pub proof fn module_config_fields(value: crate::modules::ModuleConfig)
    ensures
        value@.kind == value.kind@,
        value@.depth == value.depth,
        value@.globs.len() == value.globs@.len(),
        forall|k: int| 0 <= k < value.globs@.len() ==> #[trigger] value@.globs[k] == value.globs@[k]@,
{
}

/// A module inventory is what its fields say, each under its own name.
pub proof fn module_inventory_fields(value: crate::modules::ModuleInventory)
    ensures
        value@.cutoff_utc == value.cutoff_utc,
        value.commit is None ==> value@.commit is None,
        value.commit is Some ==> value@.commit == Some(value.commit->0@),
        value@.tracked_entries == value.tracked_entries,
        value@.outside_depth_entries == value.outside_depth_entries,
        value@.unselected_module_entries == value.unselected_module_entries,
        value@.selected_module_entries == value.selected_module_entries,
{
}

/// A module series is what its fields say, each under its own name.
pub proof fn module_series_fields(value: crate::modules::ModuleSeries)
    ensures
        value@.path == value.path@,
        value@.snapshots.len() == value.snapshots@.len(),
        forall|k: int| 0 <= k < value.snapshots@.len() ==> #[trigger] value@.snapshots[k] == value.snapshots@[k]@,
{
}

/// A checkpoint is what its fields say, each under its own name.
pub proof fn checkpoint_fields(value: crate::history::Checkpoint)
    ensures
        value@.cutoff == value.cutoff,
        value.commit is None ==> value@.commit is None,
        value.commit is Some ==> value@.commit == Some(value.commit->0@),
{
}

/// A config is what its fields say, each under its own name.
pub proof fn config_fields(value: crate::config::Config)
    ensures
        value@.includes.len() == value.includes@.len(),
        forall|k: int| 0 <= k < value.includes@.len() ==> #[trigger] value@.includes[k] == value.includes@[k]@,
        value@.exclude.len() == value.exclude@.len(),
        forall|k: int| 0 <= k < value.exclude@.len() ==> #[trigger] value@.exclude[k] == value.exclude@[k]@,
{
}

/// A record is what its fields say, each under its own name.
pub proof fn record_fields(value: crate::cache::Record)
    ensures
        value@.schema == value.schema,
        value@.analyzer == value.analyzer@,
        value@.oid == value.oid@,
        value@.language == value.language,
        value.test_policy is None ==> value@.test_policy is None,
        value.test_policy is Some ==> value@.test_policy == Some(value.test_policy->0@),
        value@.analysis_sha256 == value.analysis_sha256@,
{
}

/// A language test policy is what its fields say, each under its own name.
pub proof fn language_test_policy_fields(value: crate::languages::policy::LanguageTestPolicy)
    ensures
        value@.version == value.version@,
        value@.path_patterns.len() == value.path_patterns@.len(),
        forall|k: int| 0 <= k < value.path_patterns@.len() ==> #[trigger] value@.path_patterns[k] == value.path_patterns@[k]@,
        value@.syntax_rules.len() == value.syntax_rules@.len(),
        forall|k: int| 0 <= k < value.syntax_rules@.len() ==> #[trigger] value@.syntax_rules[k] == value.syntax_rules@[k]@,
{
}

/// A test exclusion policy is what its fields say, each under its own name.
pub proof fn test_exclusion_policy_fields(value: crate::languages::policy::TestExclusionPolicy)
    ensures
        value@.version == value.version@,
{
}

} // verus!
