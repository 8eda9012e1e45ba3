//! The measurement of one checkpoint: what was measured, what was not and why.
//!
//! Every entry of a commit falls into one category, and the counts of the
//! categories add up to the tracked entries. A snapshot has a score where some
//! callable has mass, that is a complexity and source lines.

use vstd::prelude::*;
use vstd::string::*;

use crate::git::{
    commit_model, is_regular_mode, Commit, CommitModel, EntryModel, TreeEntry,
};
use crate::history::{Checkpoint, CheckpointModel};
use crate::languages::adapters::is_test_path;
use crate::languages::paths::{extension, extension_of, lower_text, lowered};
use crate::languages::{path_language, Language};
use crate::metrics::{
    diagnostic_models, function_models, AnalysisModel, DiagnosticModel, ExclusionModel,
    FileAnalysis, FilteredModel, FunctionMetrics, FunctionModel, ParseDiagnostic,
    TestExclusionAnalysis, COMPLEXITY_THRESHOLD,
};
use crate::ordered::{
    keys_ascend, lookup, measured, put, put_and_lookup, put_and_total, total, OrderedMap,
};
use crate::sort::{in_order, insert_sorted, lemma_insert_at, sorted, sorted_is_in_order, strict_order};
use crate::text::{less, same, text_less, text_order_is_strict};

verus! {

/// The files of one language.
#[derive(Clone, Copy, Debug, PartialEq, Eq, Structural)]
pub struct LanguageCoverage {
    pub selected_files: usize,
    pub parsed_files: usize,
    pub failed_files: usize,
}

/// What became of the entries of a commit. The counts of test code are there
/// only where it is left out.
pub struct Coverage {
    pub tracked_entries: usize,
    pub excluded_entries: usize,
    pub test_excluded_entries: Option<usize>,
    pub syntax_test_files: Option<usize>,
    pub test_excluded_functions: Option<usize>,
    pub test_excluded_source_lines: Option<usize>,
    pub non_regular_entries: usize,
    pub unsupported_files: usize,
    pub unsupported_extensions: OrderedMap<usize>,
    pub selected_files: usize,
    pub parsed_files: usize,
    pub failed_files: usize,
    pub parsed_physical_lines: usize,
    pub failed_physical_lines: usize,
    pub parsed_source_lines: usize,
    pub languages: OrderedMap<LanguageCoverage>,
}

#[verifier::ext_equal]
pub struct CoverageModel {
    pub tracked_entries: usize,
    pub excluded_entries: usize,
    pub test_excluded_entries: Option<usize>,
    pub syntax_test_files: Option<usize>,
    pub test_excluded_functions: Option<usize>,
    pub test_excluded_source_lines: Option<usize>,
    pub non_regular_entries: usize,
    pub unsupported_files: usize,
    pub unsupported_extensions: Seq<(Seq<char>, usize)>,
    pub selected_files: usize,
    pub parsed_files: usize,
    pub failed_files: usize,
    pub parsed_physical_lines: usize,
    pub failed_physical_lines: usize,
    pub parsed_source_lines: usize,
    pub languages: Seq<(Seq<char>, LanguageCoverage)>,
}

impl View for Coverage {
    type V = CoverageModel;

    open spec fn view(&self) -> CoverageModel {
        CoverageModel {
            tracked_entries: self.tracked_entries,
            excluded_entries: self.excluded_entries,
            test_excluded_entries: self.test_excluded_entries,
            syntax_test_files: self.syntax_test_files,
            test_excluded_functions: self.test_excluded_functions,
            test_excluded_source_lines: self.test_excluded_source_lines,
            non_regular_entries: self.non_regular_entries,
            unsupported_files: self.unsupported_files,
            unsupported_extensions: self.unsupported_extensions@,
            selected_files: self.selected_files,
            parsed_files: self.parsed_files,
            failed_files: self.failed_files,
            parsed_physical_lines: self.parsed_physical_lines,
            failed_physical_lines: self.failed_physical_lines,
            parsed_source_lines: self.parsed_source_lines,
            languages: self.languages@,
        }
    }
}

/// A source that is not valid in its language.
#[derive(Debug)]
pub struct FailedFile {
    pub path: String,
    pub language: Language,
    pub physical_lines: usize,
    pub diagnostics: Vec<ParseDiagnostic>,
}

#[verifier::ext_equal]
pub struct FailureModel {
    pub path: Seq<char>,
    pub language: Language,
    pub physical_lines: usize,
    pub diagnostics: Seq<DiagnosticModel>,
}

impl View for FailedFile {
    type V = FailureModel;

    open spec fn view(&self) -> FailureModel {
        FailureModel {
            path: self.path@,
            language: self.language,
            physical_lines: self.physical_lines,
            diagnostics: diagnostic_models(self.diagnostics@),
        }
    }
}

pub open spec fn failure_models(failures: Seq<FailedFile>) -> Seq<FailureModel> {
    failures.map_values(|f: FailedFile| f@)
}

/// A complex callable. The rank orders callables by mass.
#[derive(Debug)]
pub struct TopFunction {
    pub path: String,
    pub language: Language,
    pub function: FunctionMetrics,
    pub rank: u64,
}

pub struct TopModel {
    pub path: Seq<char>,
    pub language: Language,
    pub function: FunctionModel,
    pub rank: u64,
}

impl View for TopFunction {
    type V = TopModel;

    open spec fn view(&self) -> TopModel {
        TopModel {
            path: self.path@,
            language: self.language,
            function: self.function@,
            rank: self.rank,
        }
    }
}

pub open spec fn top_models(functions: Seq<TopFunction>) -> Seq<TopModel> {
    functions.map_values(|f: TopFunction| f@)
}

/// What a snapshot amounts to.
#[derive(Clone, Copy, Debug, PartialEq, Eq, Structural)]
pub enum Status {
    /// Every selected file was measured.
    Complete,
    /// Some selected file is not valid in its language.
    Partial,
    /// No callable has mass.
    NotMeasurable,
    /// There was no commit yet.
    NoCommit,
    /// The commit has no entry of the module.
    NoFiles,
}

impl Status {
    pub open spec fn name(self) -> Seq<char> {
        match self {
            Status::Complete => "complete"@,
            Status::Partial => "partial"@,
            Status::NotMeasurable => "not_measurable"@,
            Status::NoCommit => "no_commit"@,
            Status::NoFiles => "no_files"@,
        }
    }

    /// The name of a status in reports.
    pub fn id(&self) -> (id: &'static str)
        ensures
            id@ == self.name(),
    {
        match self {
            Status::Complete => "complete",
            Status::Partial => "partial",
            Status::NotMeasurable => "not_measurable",
            Status::NoCommit => "no_commit",
            Status::NoFiles => "no_files",
        }
    }
}

/// The measurement of one checkpoint. It has a score where it is measurable, and
/// a change where the one before it in its series is measurable too.
pub struct Snapshot {
    pub cutoff_utc: i64,
    pub commit: Option<Commit>,
    pub status: Status,
    pub coverage: Coverage,
    pub functions: usize,
    pub complex_functions: usize,
    pub measurable: bool,
    pub comparable: bool,
    pub failures: Vec<FailedFile>,
    pub top_functions: Vec<TopFunction>,
}

#[verifier::ext_equal]
pub struct SnapshotModel {
    pub cutoff_utc: i64,
    pub commit: Option<CommitModel>,
    pub status: Status,
    pub coverage: CoverageModel,
    pub functions: usize,
    pub complex_functions: usize,
    pub measurable: bool,
    pub comparable: bool,
    pub failures: Seq<FailureModel>,
    pub top_functions: Seq<TopModel>,
}

impl View for Snapshot {
    type V = SnapshotModel;

    open spec fn view(&self) -> SnapshotModel {
        SnapshotModel {
            cutoff_utc: self.cutoff_utc,
            commit: commit_model(self.commit),
            status: self.status,
            coverage: self.coverage@,
            functions: self.functions,
            complex_functions: self.complex_functions,
            measurable: self.measurable,
            comparable: self.comparable,
            failures: failure_models(self.failures@),
            top_functions: top_models(self.top_functions@),
        }
    }
}

pub open spec fn snapshot_models(snapshots: Seq<Snapshot>) -> Seq<SnapshotModel> {
    snapshots.map_values(|s: Snapshot| s@)
}

/// A count as a measure.
pub open spec fn counts() -> spec_fn(usize) -> nat {
    |n: usize| n as nat
}

/// The selected files of a language.
pub open spec fn selected_counts() -> spec_fn(LanguageCoverage) -> nat {
    |c: LanguageCoverage| c.selected_files as nat
}

/// The measured files of a language.
pub open spec fn parsed_counts() -> spec_fn(LanguageCoverage) -> nat {
    |c: LanguageCoverage| c.parsed_files as nat
}

/// The files of a language that are not valid in it.
pub open spec fn failed_counts() -> spec_fn(LanguageCoverage) -> nat {
    |c: LanguageCoverage| c.failed_files as nat
}

/// Every tracked entry is in one category, every selected file was measured or
/// failed, the failures are listed, and the counts by extension add up.
pub open spec fn accounted(s: SnapshotModel) -> bool {
    let c = s.coverage;
    &&& c.tracked_entries == c.excluded_entries + c.non_regular_entries + c.unsupported_files
        + c.selected_files
    &&& c.selected_files == c.parsed_files + c.failed_files
    &&& c.failed_files == s.failures.len()
    &&& keys_ascend(c.unsupported_extensions)
    &&& c.unsupported_files == total(c.unsupported_extensions, counts())
}

/// The counts by language add up.
pub open spec fn languages_add_up(c: CoverageModel) -> bool {
    &&& keys_ascend(c.languages)
    &&& total(c.languages, selected_counts()) == c.selected_files
    &&& total(c.languages, parsed_counts()) == c.parsed_files
    &&& total(c.languages, failed_counts()) == c.failed_files
}

/// The files that were left out as tests are among the excluded entries.
pub open spec fn tests_are_excluded(c: CoverageModel) -> bool {
    c.test_excluded_entries is Some ==> c.test_excluded_entries->0 <= c.excluded_entries
}

/// The counts of a snapshot add up.
pub open spec fn adds_up(s: SnapshotModel) -> bool {
    accounted(s) && languages_add_up(s.coverage) && tests_are_excluded(s.coverage)
}

/// The counts of test code are kept together, and files with test code are measured
/// files.
pub open spec fn tests_are_counted(c: CoverageModel) -> bool {
    &&& c.test_excluded_entries is Some <==> c.syntax_test_files is Some
    &&& c.test_excluded_entries is Some <==> c.test_excluded_functions is Some
    &&& c.test_excluded_entries is Some <==> c.test_excluded_source_lines is Some
    &&& c.syntax_test_files is Some ==> c.syntax_test_files->0 <= c.parsed_files
}

/// The counts add up, those of test code are kept together, and complex callables are
/// callables.
pub open spec fn sound(s: SnapshotModel) -> bool {
    &&& adds_up(s)
    &&& tests_are_counted(s.coverage)
    &&& s.complex_functions <= s.functions
}

/// Zero where test code is left out.
pub open spec fn test_count(exclude_tests: bool) -> Option<usize> {
    if exclude_tests {
        Some(0usize)
    } else {
        None
    }
}

/// The coverage of no entries.
pub open spec fn no_coverage(exclude_tests: bool) -> CoverageModel {
    CoverageModel {
        tracked_entries: 0,
        excluded_entries: 0,
        test_excluded_entries: test_count(exclude_tests),
        syntax_test_files: test_count(exclude_tests),
        test_excluded_functions: test_count(exclude_tests),
        test_excluded_source_lines: test_count(exclude_tests),
        non_regular_entries: 0,
        unsupported_files: 0,
        unsupported_extensions: Seq::empty(),
        selected_files: 0,
        parsed_files: 0,
        failed_files: 0,
        parsed_physical_lines: 0,
        failed_physical_lines: 0,
        parsed_source_lines: 0,
        languages: Seq::empty(),
    }
}

/// The snapshot of a checkpoint before any entry.
pub open spec fn empty_snapshot(checkpoint: CheckpointModel, exclude_tests: bool) -> SnapshotModel {
    SnapshotModel {
        cutoff_utc: checkpoint.cutoff,
        commit: checkpoint.commit,
        status: if checkpoint.commit is None {
            Status::NoCommit
        } else {
            Status::NotMeasurable
        },
        coverage: no_coverage(exclude_tests),
        functions: 0,
        complex_functions: 0,
        measurable: false,
        comparable: false,
        failures: Seq::empty(),
        top_functions: Seq::empty(),
    }
}

/// What an entry is to the measurement.
#[derive(Clone, Copy, Debug, PartialEq, Eq, Structural)]
pub enum EntryClass {
    /// A link or a submodule, which is never followed.
    NonRegular,
    /// A file in no supported language.
    Unsupported,
    /// A test file of a language that is left out.
    Test(Language),
    /// A source to be measured.
    Source(Language),
}

/// What an entry is to the measurement, by its mode and its path alone.
pub open spec fn entry_class(entry: EntryModel, exclude_tests: bool) -> EntryClass {
    if !is_regular_mode(entry.mode) {
        EntryClass::NonRegular
    } else {
        match path_language(entry.path) {
            None => EntryClass::Unsupported,
            Some(language) => if exclude_tests && is_test_path(language, entry.path) {
                EntryClass::Test(language)
            } else {
                EntryClass::Source(language)
            },
        }
    }
}

/// How the extension of an unsupported file is counted.
pub open spec fn shown_extension(path: Seq<char>) -> Seq<char> {
    match extension_of(path) {
        Some(extension) => lowered(extension),
        None => "<none>"@,
    }
}

/// The coverage with an entry outside the scope.
pub open spec fn with_excluded(c: CoverageModel) -> CoverageModel {
    CoverageModel {
        tracked_entries: (c.tracked_entries + 1) as usize,
        excluded_entries: (c.excluded_entries + 1) as usize,
        ..c
    }
}

/// One more under a key.
pub open spec fn with_count(entries: Seq<(Seq<char>, usize)>, key: Seq<char>) -> Seq<
    (Seq<char>, usize),
> {
    put(
        entries,
        key,
        (match lookup(entries, key) {
            Some(n) => n + 1,
            None => 1,
        }) as usize,
    )
}

/// The coverage with an entry that is not measured.
pub open spec fn with_skipped(c: CoverageModel, path: Seq<char>, class: EntryClass) -> CoverageModel {
    match class {
        EntryClass::NonRegular => CoverageModel {
            tracked_entries: (c.tracked_entries + 1) as usize,
            non_regular_entries: (c.non_regular_entries + 1) as usize,
            ..c
        },
        EntryClass::Unsupported => CoverageModel {
            tracked_entries: (c.tracked_entries + 1) as usize,
            unsupported_files: (c.unsupported_files + 1) as usize,
            unsupported_extensions: with_count(c.unsupported_extensions, shown_extension(path)),
            ..c
        },
        EntryClass::Test(_) => CoverageModel {
            tracked_entries: (c.tracked_entries + 1) as usize,
            excluded_entries: (c.excluded_entries + 1) as usize,
            test_excluded_entries: match c.test_excluded_entries {
                Some(n) => Some((n + 1) as usize),
                None => None,
            },
            ..c
        },
        EntryClass::Source(_) => c,
    }
}

/// The files of a language so far.
pub open spec fn language_counts(
    languages: Seq<(Seq<char>, LanguageCoverage)>,
    language: Language,
) -> LanguageCoverage {
    match lookup(languages, language.name()) {
        Some(counts) => counts,
        None => LanguageCoverage { selected_files: 0, parsed_files: 0, failed_files: 0 },
    }
}

/// One more selected file of a language, measured or failed.
pub open spec fn with_file(
    languages: Seq<(Seq<char>, LanguageCoverage)>,
    language: Language,
    parsed: bool,
) -> Seq<(Seq<char>, LanguageCoverage)> {
    let counts = language_counts(languages, language);
    put(
        languages,
        language.name(),
        LanguageCoverage {
            selected_files: (counts.selected_files + 1) as usize,
            parsed_files: (counts.parsed_files + if parsed {
                1int
            } else {
                0
            }) as usize,
            failed_files: (counts.failed_files + if parsed {
                0int
            } else {
                1
            }) as usize,
        },
    )
}

/// The coverage with a source that is not valid in its language.
pub open spec fn with_failed(c: CoverageModel, language: Language, physical_lines: usize) -> CoverageModel {
    CoverageModel {
        tracked_entries: (c.tracked_entries + 1) as usize,
        selected_files: (c.selected_files + 1) as usize,
        failed_files: (c.failed_files + 1) as usize,
        failed_physical_lines: (c.failed_physical_lines + physical_lines) as usize,
        languages: with_file(c.languages, language, false),
        ..c
    }
}

/// The measurements without test code, where there is test code to leave out.
pub open spec fn filtered(exclusion: Option<ExclusionModel>) -> Option<FilteredModel> {
    match exclusion {
        Some(exclusion) => exclusion.without_tests,
        None => None,
    }
}

/// The callables that count.
pub open spec fn counted_functions(
    analysis: AnalysisModel,
    exclusion: Option<ExclusionModel>,
) -> Seq<FunctionModel> {
    match filtered(exclusion) {
        Some(rest) => rest.functions,
        None => analysis.functions,
    }
}

/// A count with more added, where it is kept.
pub open spec fn raised(count: Option<usize>, by: int) -> Option<usize> {
    match count {
        Some(n) => Some((n + by) as usize),
        None => None,
    }
}

/// The coverage with a measured source.
pub open spec fn with_parsed(
    c: CoverageModel,
    language: Language,
    analysis: AnalysisModel,
    exclusion: Option<ExclusionModel>,
) -> CoverageModel {
    let counted = CoverageModel {
        tracked_entries: (c.tracked_entries + 1) as usize,
        selected_files: (c.selected_files + 1) as usize,
        parsed_files: (c.parsed_files + 1) as usize,
        parsed_physical_lines: (c.parsed_physical_lines + analysis.physical_lines) as usize,
        languages: with_file(c.languages, language, true),
        ..c
    };
    match filtered(exclusion) {
        Some(rest) => CoverageModel {
            syntax_test_files: raised(c.syntax_test_files, 1),
            test_excluded_functions: raised(
                c.test_excluded_functions,
                analysis.functions.len() - rest.functions.len(),
            ),
            test_excluded_source_lines: raised(
                c.test_excluded_source_lines,
                analysis.source_lines - rest.source_lines,
            ),
            parsed_source_lines: (c.parsed_source_lines + rest.source_lines) as usize,
            ..counted
        },
        None => CoverageModel {
            parsed_source_lines: (c.parsed_source_lines + analysis.source_lines) as usize,
            ..counted
        },
    }
}

/// The complex ones among the first `n` callables.
pub open spec fn complex_among(
    path: Seq<char>,
    language: Language,
    functions: Seq<FunctionModel>,
    ranks: Seq<u64>,
    n: int,
) -> Seq<TopModel>
    decreases n,
{
    if n <= 0 {
        Seq::empty()
    } else {
        let rest = complex_among(path, language, functions, ranks, n - 1);
        if functions[n - 1].complexity > COMPLEXITY_THRESHOLD {
            rest.push(TopModel { path, language, function: functions[n - 1], rank: ranks[n - 1] })
        } else {
            rest
        }
    }
}

/// The callable has mass.
pub open spec fn has_mass(function: FunctionModel) -> bool {
    function.complexity > 0 && function.source_lines > 0
}

/// Some callable has mass.
pub open spec fn any_mass(functions: Seq<FunctionModel>) -> bool {
    exists|k: int| 0 <= k < functions.len() && has_mass(#[trigger] functions[k])
}

/// Why an analysis cannot be recorded.
#[derive(Clone, Copy, Debug, PartialEq, Eq, Structural)]
pub enum RecordError {
    /// Test code is left out of a snapshot that counts all code.
    MissingTestCoverage,
    /// The filtered measurements have more callables than all code.
    FunctionCount,
    /// The filtered measurements have more source lines than all code.
    SourceCount,
    /// The callables of test code are not counted.
    MissingFunctionCoverage,
    /// The source lines of test code are not counted.
    MissingLineCoverage,
}

impl RecordError {
    pub open spec fn text(self) -> Seq<char> {
        match self {
            RecordError::MissingTestCoverage => "Missing syntax test coverage"@,
            RecordError::FunctionCount => "Invalid cached test-filtered function count"@,
            RecordError::SourceCount => "Invalid cached test-filtered source count"@,
            RecordError::MissingFunctionCoverage => "Missing test function coverage"@,
            RecordError::MissingLineCoverage => "Missing test line coverage"@,
        }
    }

    /// What to tell the user.
    pub fn message(&self) -> (message: &'static str)
        ensures
            message@ == self.text(),
    {
        match self {
            RecordError::MissingTestCoverage => "Missing syntax test coverage",
            RecordError::FunctionCount => "Invalid cached test-filtered function count",
            RecordError::SourceCount => "Invalid cached test-filtered source count",
            RecordError::MissingFunctionCoverage => "Missing test function coverage",
            RecordError::MissingLineCoverage => "Missing test line coverage",
        }
    }
}

/// Why an entry of a checkpoint cannot be counted.
#[derive(Clone, Copy, Debug, PartialEq, Eq, Structural)]
pub enum CountError {
    /// A count of lines or callables would overflow.
    TooMuchSource,
    /// What the source came to cannot be recorded.
    Record { error: RecordError },
}

impl CountError {
    pub open spec fn text(self) -> Seq<char> {
        match self {
            CountError::TooMuchSource => "Too much source to count"@,
            CountError::Record { error } => error.text(),
        }
    }

    /// What to tell the user.
    pub fn message(&self) -> (message: &'static str)
        ensures
            message@ == self.text(),
    {
        match self {
            CountError::TooMuchSource => "Too much source to count",
            CountError::Record { error } => error.message(),
        }
    }
}

/// What is wrong with filtered measurements, where anything is.
pub open spec fn filter_failure(
    c: CoverageModel,
    analysis: AnalysisModel,
    exclusion: Option<ExclusionModel>,
) -> Option<RecordError> {
    match filtered(exclusion) {
        None => None,
        Some(rest) => if c.syntax_test_files is None {
            Some(RecordError::MissingTestCoverage)
        } else if analysis.functions.len() < rest.functions.len() {
            Some(RecordError::FunctionCount)
        } else if c.test_excluded_functions is None {
            Some(RecordError::MissingFunctionCoverage)
        } else if analysis.source_lines < rest.source_lines {
            Some(RecordError::SourceCount)
        } else if c.test_excluded_source_lines is None {
            Some(RecordError::MissingLineCoverage)
        } else {
            None
        },
    }
}

/// The snapshot with a source that was analyzed. A source that is not valid in
/// its language is listed and adds nothing to the measurements.
pub open spec fn recorded(
    s: SnapshotModel,
    path: Seq<char>,
    language: Language,
    analysis: AnalysisModel,
    exclusion: Option<ExclusionModel>,
    ranks: Seq<u64>,
    keep: bool,
) -> Result<SnapshotModel, RecordError> {
    if analysis.diagnostics.len() > 0 {
        Ok(
            SnapshotModel {
                coverage: with_failed(s.coverage, language, analysis.physical_lines),
                failures: s.failures.push(
                    FailureModel {
                        path,
                        language,
                        physical_lines: analysis.physical_lines,
                        diagnostics: analysis.diagnostics,
                    },
                ),
                ..s
            },
        )
    } else {
        match filter_failure(s.coverage, analysis, exclusion) {
            Some(error) => Err(error),
            None => {
                let functions = counted_functions(analysis, exclusion);
                let complex = complex_among(
                    path,
                    language,
                    functions,
                    ranks,
                    functions.len() as int,
                );
                Ok(
                    SnapshotModel {
                        coverage: with_parsed(s.coverage, language, analysis, exclusion),
                        functions: (s.functions + functions.len()) as usize,
                        complex_functions: (s.complex_functions + complex.len()) as usize,
                        measurable: s.measurable || any_mass(functions),
                        top_functions: if keep {
                            s.top_functions + complex
                        } else {
                            s.top_functions
                        },
                        ..s
                    },
                )
            },
        }
    }
}

/// The snapshot with one more entry: outside the scope, not measured, or a source
/// with what it came to.
pub open spec fn accumulated(
    s: SnapshotModel,
    entry: EntryModel,
    class: Option<EntryClass>,
    analysis: AnalysisModel,
    exclusion: Option<ExclusionModel>,
    ranks: Seq<u64>,
    keep: bool,
) -> Result<SnapshotModel, RecordError> {
    match class {
        None => Ok(SnapshotModel { coverage: with_excluded(s.coverage), ..s }),
        Some(EntryClass::Source(language)) => recorded(
            s,
            entry.path,
            language,
            analysis,
            exclusion,
            ranks,
            keep,
        ),
        Some(class) => Ok(
            SnapshotModel { coverage: with_skipped(s.coverage, entry.path, class), ..s },
        ),
    }
}

/// Every entry adds one to the tracked entries and to exactly one category, whatever
/// it is and whatever its source came to; what added up before adds up after it. The
/// only condition is that the tracked entries can be counted.
pub proof fn every_entry_is_counted_once(
    s: SnapshotModel,
    entry: EntryModel,
    class: Option<EntryClass>,
    analysis: AnalysisModel,
    exclusion: Option<ExclusionModel>,
    ranks: Seq<u64>,
    keep: bool,
)
    requires
        accounted(s),
        s.coverage.tracked_entries < usize::MAX,
        accumulated(s, entry, class, analysis, exclusion, ranks, keep) is Ok,
    ensures
        ({
            let after = accumulated(s, entry, class, analysis, exclusion, ranks, keep)->Ok_0;
            let (c, d) = (s.coverage, after.coverage);
            &&& accounted(after)
            &&& d.tracked_entries == c.tracked_entries + 1
            &&& d.excluded_entries == c.excluded_entries + if class is None || class->0 is Test {
                1int
            } else {
                0
            }
            &&& d.non_regular_entries == c.non_regular_entries + if class
                == Some(EntryClass::NonRegular) {
                1int
            } else {
                0
            }
            &&& d.unsupported_files == c.unsupported_files + if class
                == Some(EntryClass::Unsupported) {
                1int
            } else {
                0
            }
            &&& d.selected_files == c.selected_files + if class is Some && class->0 is Source {
                1int
            } else {
                0
            }
            &&& languages_add_up(c) ==> languages_add_up(d)
            &&& tests_are_excluded(c) ==> tests_are_excluded(d)
        }),
{
    let c = s.coverage;
    match class {
        Some(EntryClass::Unsupported) => {
            lemma_with_count(
                c.unsupported_extensions,
                shown_extension(entry.path),
                c.unsupported_files,
            );
        },
        Some(EntryClass::Source(language)) => {
            if languages_add_up(c) {
                lemma_with_file(c.languages, language, analysis.diagnostics.len() == 0);
            }
        },
        _ => {},
    }
}

/// Adding an analysis overflows no count.
pub open spec fn has_room(s: SnapshotModel, analysis: AnalysisModel) -> bool {
    &&& s.coverage.tracked_entries < usize::MAX
    &&& s.coverage.parsed_physical_lines + analysis.physical_lines <= usize::MAX
    &&& s.coverage.failed_physical_lines + analysis.physical_lines <= usize::MAX
    &&& s.coverage.parsed_source_lines + analysis.source_lines <= usize::MAX
    &&& s.functions + analysis.functions.len() <= usize::MAX
    &&& s.complex_functions + analysis.functions.len() <= usize::MAX
    &&& s.coverage.syntax_test_files is Some ==> s.coverage.syntax_test_files->0 < usize::MAX
    &&& s.coverage.test_excluded_functions is Some ==> s.coverage.test_excluded_functions->0
        + analysis.functions.len() <= usize::MAX
    &&& s.coverage.test_excluded_source_lines is Some ==> s.coverage.test_excluded_source_lines->0
        + analysis.source_lines <= usize::MAX
}

/// The order of complex callables: more mass first, then by place.
pub open spec fn top_order() -> spec_fn(TopModel, TopModel) -> bool {
    |a: TopModel, b: TopModel| top_before(a, b)
}

pub open spec fn top_before(a: TopModel, b: TopModel) -> bool {
    if a.rank != b.rank {
        a.rank > b.rank
    } else if a.path != b.path {
        text_less(a.path, b.path)
    } else if a.function.start_line != b.function.start_line {
        a.function.start_line < b.function.start_line
    } else {
        a.function.end_line < b.function.end_line
    }
}

proof fn lemma_top_order()
    ensures
        strict_order(top_order()),
{
    let order = top_order();
    assert forall|a: TopModel, b: TopModel| #[trigger] order(a, b) implies !order(b, a) by {
        text_order_is_strict(a.path, b.path, a.path);
    }
    assert forall|a: TopModel, b: TopModel, c: TopModel| #[trigger]
        order(a, b) && !#[trigger] order(c, b) implies order(a, c) by {
        text_order_is_strict(a.path, b.path, c.path);
        text_order_is_strict(b.path, c.path, a.path);
        text_order_is_strict(c.path, b.path, a.path);
        text_order_is_strict(a.path, c.path, b.path);
        text_order_is_strict(b.path, a.path, c.path);
        text_order_is_strict(c.path, a.path, b.path);
    }
}

/// The first of the complex callables in their order.
pub open spec fn top_of(functions: Seq<TopModel>, top: usize) -> Seq<TopModel> {
    let ranked = sorted(functions, top_order());
    if top < ranked.len() {
        ranked.subrange(0, top as int)
    } else {
        ranked
    }
}

/// The snapshot when every entry is in.
pub open spec fn finished(s: SnapshotModel, top: usize) -> SnapshotModel {
    SnapshotModel {
        status: if s.commit is None {
            s.status
        } else if s.coverage.failed_files > 0 {
            Status::Partial
        } else if !s.measurable {
            Status::NotMeasurable
        } else {
            Status::Complete
        },
        top_functions: top_of(s.top_functions, top),
        ..s
    }
}

/// The most massive callables come first, and none that is left out comes before
/// one that is shown.
pub proof fn top_functions_are_ranked(functions: Seq<TopModel>, top: usize)
    ensures
        in_order(top_of(functions, top), top_order()),
        top_of(functions, top).len() <= top,
        in_order(sorted(functions, top_order()), top_order()),
        top_of(functions, top).is_prefix_of(sorted(functions, top_order())),
{
    lemma_top_order();
    sorted_is_in_order(functions, top_order());
    let ranked = sorted(functions, top_order());
    let shown = top_of(functions, top);
    assert(shown =~= ranked.subrange(0, shown.len() as int));
    assert forall|i: int, j: int| 0 <= i < j < shown.len() implies !top_order()(
        #[trigger] shown[j],
        #[trigger] shown[i],
    ) by {
        assert(shown[i] == ranked[i] && shown[j] == ranked[j]);
    }
}

proof fn lemma_with_count(entries: Seq<(Seq<char>, usize)>, key: Seq<char>, n: usize)
    requires
        keys_ascend(entries),
        total(entries, counts()) == n,
        n < usize::MAX,
    ensures
        keys_ascend(with_count(entries, key)),
        total(with_count(entries, key), counts()) == n + 1,
        lookup(entries, key) is Some ==> lookup(entries, key)->0 < usize::MAX,
{
    let value = (match lookup(entries, key) {
        Some(n) => n + 1,
        None => 1,
    }) as usize;
    put_and_total(entries, key, value, counts());
    put_and_lookup(entries, key, value, key);
}

proof fn lemma_with_file(
    languages: Seq<(Seq<char>, LanguageCoverage)>,
    language: Language,
    parsed: bool,
)
    requires
        keys_ascend(languages),
        total(languages, selected_counts()) < usize::MAX,
        total(languages, parsed_counts()) < usize::MAX,
        total(languages, failed_counts()) < usize::MAX,
    ensures
        ({
            let after = with_file(languages, language, parsed);
            let added: nat = if parsed {
                1
            } else {
                0
            };
            &&& keys_ascend(after)
            &&& total(after, selected_counts()) == total(languages, selected_counts()) + 1
            &&& total(after, parsed_counts()) == total(languages, parsed_counts()) + added
            &&& total(after, failed_counts()) == total(languages, failed_counts()) + 1 - added
            &&& language_counts(languages, language).selected_files < usize::MAX
            &&& language_counts(languages, language).parsed_files < usize::MAX
            &&& language_counts(languages, language).failed_files < usize::MAX
        }),
{
    let key = language.name();
    let old_counts = language_counts(languages, language);
    let any = LanguageCoverage { selected_files: 0, parsed_files: 0, failed_files: 0 };
    put_and_total(languages, key, any, selected_counts());
    put_and_total(languages, key, any, parsed_counts());
    put_and_total(languages, key, any, failed_counts());
    let value = LanguageCoverage {
        selected_files: (old_counts.selected_files + 1) as usize,
        parsed_files: (old_counts.parsed_files + if parsed {
            1int
        } else {
            0
        }) as usize,
        failed_files: (old_counts.failed_files + if parsed {
            0int
        } else {
            1
        }) as usize,
    };
    put_and_lookup(languages, key, value, key);
    put_and_total(languages, key, value, selected_counts());
    put_and_total(languages, key, value, parsed_counts());
    put_and_total(languages, key, value, failed_counts());
}

fn count_extension(entries: &mut OrderedMap<usize>, key: &str)
    requires
        lookup(old(entries)@, key@) is Some ==> lookup(old(entries)@, key@)->0 < usize::MAX,
    ensures
        final(entries)@ == with_count(old(entries)@, key@),
{
    let n: usize = match entries.get(key) {
        Some(n) => *n + 1,
        None => 1,
    };
    entries.set(key, n);
}

fn count_file(languages: &mut OrderedMap<LanguageCoverage>, language: Language, parsed: bool)
    requires
        ({
            let counts = language_counts(old(languages)@, language);
            counts.selected_files < usize::MAX && counts.parsed_files < usize::MAX
                && counts.failed_files < usize::MAX
        }),
    ensures
        final(languages)@ == with_file(old(languages)@, language, parsed),
{
    let mut counts: LanguageCoverage = match languages.get(language.id()) {
        Some(counts) => *counts,
        None => LanguageCoverage { selected_files: 0, parsed_files: 0, failed_files: 0 },
    };
    counts.selected_files = counts.selected_files + 1;
    if parsed {
        counts.parsed_files = counts.parsed_files + 1;
    } else {
        counts.failed_files = counts.failed_files + 1;
    }
    languages.set(language.id(), counts);
}

/// A snapshot while its entries come in.
pub struct SnapshotAccumulator {
    pub snapshot: Snapshot,
}

impl View for SnapshotAccumulator {
    type V = SnapshotModel;

    open spec fn view(&self) -> SnapshotModel {
        self.snapshot@
    }
}

pub(crate) fn copy_commit(commit: &Option<Commit>) -> (copy: Option<Commit>)
    ensures
        commit_model(copy) == commit_model(*commit),
{
    match commit {
        Some(commit) => Some(commit.clone()),
        None => None,
    }
}

/// The callables of a file that count.
pub fn measured_functions<'a>(
    analysis: &'a FileAnalysis,
    exclusion: Option<&'a TestExclusionAnalysis>,
) -> (functions: &'a Vec<FunctionMetrics>)
    ensures
        function_models(functions@) == counted_functions(analysis@, exclusion_model(exclusion)),
{
    match exclusion {
        Some(exclusion) => match &exclusion.without_tests {
            Some(rest) => &rest.functions,
            None => &analysis.functions,
        },
        None => &analysis.functions,
    }
}

/// What leaving out test code came to, where it was looked for.
pub open spec fn exclusion_model(exclusion: Option<&TestExclusionAnalysis>) -> Option<
    ExclusionModel,
> {
    match exclusion {
        Some(exclusion) => Some(exclusion@),
        None => None,
    }
}

impl SnapshotAccumulator {
    /// The snapshot of a checkpoint before any entry.
    pub fn new(checkpoint: &Checkpoint, exclude_tests: bool) -> (accumulator: Self)
        ensures
            accumulator@ == empty_snapshot(checkpoint@, exclude_tests),
            sound(accumulator@),
    {
        let zero: Option<usize> = if exclude_tests {
            Some(0)
        } else {
            None
        };
        let snapshot = Snapshot {
            cutoff_utc: checkpoint.cutoff,
            commit: copy_commit(&checkpoint.commit),
            status: if checkpoint.commit.is_none() {
                Status::NoCommit
            } else {
                Status::NotMeasurable
            },
            coverage: Coverage {
                tracked_entries: 0,
                excluded_entries: 0,
                test_excluded_entries: zero,
                syntax_test_files: zero,
                test_excluded_functions: zero,
                test_excluded_source_lines: zero,
                non_regular_entries: 0,
                unsupported_files: 0,
                unsupported_extensions: OrderedMap::new(),
                selected_files: 0,
                parsed_files: 0,
                failed_files: 0,
                parsed_physical_lines: 0,
                failed_physical_lines: 0,
                parsed_source_lines: 0,
                languages: OrderedMap::new(),
            },
            functions: 0,
            complex_functions: 0,
            measurable: false,
            comparable: false,
            failures: Vec::new(),
            top_functions: Vec::new(),
        };
        assert(snapshot@ =~= empty_snapshot(checkpoint@, exclude_tests));
        SnapshotAccumulator { snapshot }
    }

    /// Counts an entry outside the scope.
    pub fn exclude(&mut self)
        requires
            adds_up(old(self)@),
            old(self)@.coverage.tracked_entries < usize::MAX,
        ensures
            final(self)@ == (SnapshotModel {
                coverage: with_excluded(old(self)@.coverage),
                ..old(self)@
            }),
            adds_up(final(self)@),
            sound(old(self)@) ==> sound(final(self)@),
    {
        self.snapshot.coverage.tracked_entries = self.snapshot.coverage.tracked_entries + 1;
        self.snapshot.coverage.excluded_entries = self.snapshot.coverage.excluded_entries + 1;
    }

    /// Counts an entry that is not measured.
    pub fn skip(&mut self, entry: &TreeEntry, class: EntryClass)
        requires
            adds_up(old(self)@),
            old(self)@.coverage.tracked_entries < usize::MAX,
            class !is Source,
        ensures
            final(self)@ == (SnapshotModel {
                coverage: with_skipped(old(self)@.coverage, entry.path@, class),
                ..old(self)@
            }),
            adds_up(final(self)@),
            sound(old(self)@) ==> sound(final(self)@),
    {
        let ghost before = self@;
        match class {
            EntryClass::NonRegular => {
                self.snapshot.coverage.tracked_entries = self.snapshot.coverage.tracked_entries + 1;
                self.snapshot.coverage.non_regular_entries =
                self.snapshot.coverage.non_regular_entries + 1;
            },
            EntryClass::Unsupported => {
                proof {
                    lemma_with_count(
                        before.coverage.unsupported_extensions,
                        shown_extension(entry.path@),
                        before.coverage.unsupported_files,
                    );
                }
                self.snapshot.coverage.tracked_entries = self.snapshot.coverage.tracked_entries + 1;
                self.snapshot.coverage.unsupported_files = self.snapshot.coverage.unsupported_files
                    + 1;
                let name = match extension(entry.path.as_str()) {
                    Some(extension) => lower_text(extension),
                    None => "<none>".to_owned(),
                };
                count_extension(
                    &mut self.snapshot.coverage.unsupported_extensions,
                    name.as_str(),
                );
            },
            EntryClass::Test(_) => {
                self.snapshot.coverage.tracked_entries = self.snapshot.coverage.tracked_entries + 1;
                self.snapshot.coverage.excluded_entries = self.snapshot.coverage.excluded_entries
                    + 1;
                self.snapshot.coverage.test_excluded_entries =
                match self.snapshot.coverage.test_excluded_entries {
                    Some(n) => Some(n + 1),
                    None => None,
                };
            },
            EntryClass::Source(_) => {},
        }
        assert(self@ =~= SnapshotModel {
            coverage: with_skipped(before.coverage, entry.path@, class),
            ..before
        });
    }

    /// Adding an analysis overflows no count.
    pub fn room_for(&self, analysis: &FileAnalysis) -> (r: bool)
        ensures
            r == has_room(self@, analysis@),
    {
        let coverage = &self.snapshot.coverage;
        let functions: usize = analysis.functions.len();
        assert(analysis@.functions.len() == functions);
        coverage.tracked_entries < usize::MAX && coverage.parsed_physical_lines <= usize::MAX
            - analysis.physical_lines && coverage.failed_physical_lines <= usize::MAX
            - analysis.physical_lines && coverage.parsed_source_lines <= usize::MAX
            - analysis.source_lines && self.snapshot.functions <= usize::MAX - functions
            && self.snapshot.complex_functions <= usize::MAX - functions
            && match coverage.syntax_test_files {
            Some(n) => n < usize::MAX,
            None => true,
        } && match coverage.test_excluded_functions {
            Some(n) => n <= usize::MAX - functions,
            None => true,
        } && match coverage.test_excluded_source_lines {
            Some(n) => n <= usize::MAX - analysis.source_lines,
            None => true,
        }
    }

    /// Adds a source that was analyzed, with the ranks of its callables by mass.
    /// Complex callables are kept where they are to be shown.
    pub fn record(
        &mut self,
        path: &str,
        language: Language,
        analysis: &FileAnalysis,
        exclusion: Option<&TestExclusionAnalysis>,
        ranks: &Vec<u64>,
        keep: bool,
    ) -> (result: Result<(), RecordError>)
        requires
            adds_up(old(self)@),
            has_room(old(self)@, analysis@),
            ranks@.len() == counted_functions(analysis@, exclusion_model(exclusion)).len(),
        ensures
            adds_up(final(self)@),
            sound(old(self)@) ==> sound(final(self)@),
            match result {
                Ok(()) => recorded(
                    old(self)@,
                    path@,
                    language,
                    analysis@,
                    exclusion_model(exclusion),
                    ranks@,
                    keep,
                ) == Ok::<SnapshotModel, RecordError>(final(self)@),
                Err(error) => final(self)@ == old(self)@ && recorded(
                    old(self)@,
                    path@,
                    language,
                    analysis@,
                    exclusion_model(exclusion),
                    ranks@,
                    keep,
                ) == Err::<SnapshotModel, RecordError>(error),
            },
    {
        let ghost before = self@;
        proof {
            lemma_with_file(before.coverage.languages, language, analysis@.diagnostics.len() == 0);
            assert(analysis@.functions.len() == analysis.functions@.len());
        }
        if !analysis.parsed() {
            self.record_failure(path, language, analysis);
            return Ok(());
        }
        let mut source_lines: usize = analysis.source_lines;
        match exclusion {
            Some(exclusion) => match &exclusion.without_tests {
                Some(rest) => {
                    assert(rest@.functions.len() == rest.functions@.len());
                    let files: usize = match self.snapshot.coverage.syntax_test_files {
                        Some(files) => files,
                        None => {
                            return Err(RecordError::MissingTestCoverage);
                        },
                    };
                    if analysis.functions.len() < rest.functions.len() {
                        return Err(RecordError::FunctionCount);
                    }
                    let functions: usize = match self.snapshot.coverage.test_excluded_functions {
                        Some(functions) => functions,
                        None => {
                            return Err(RecordError::MissingFunctionCoverage);
                        },
                    };
                    if analysis.source_lines < rest.source_lines {
                        return Err(RecordError::SourceCount);
                    }
                    let lines: usize = match self.snapshot.coverage.test_excluded_source_lines {
                        Some(lines) => lines,
                        None => {
                            return Err(RecordError::MissingLineCoverage);
                        },
                    };
                    self.snapshot.coverage.syntax_test_files = Some(files + 1);
                    self.snapshot.coverage.test_excluded_functions = Some(
                        functions + (analysis.functions.len() - rest.functions.len()),
                    );
                    self.snapshot.coverage.test_excluded_source_lines = Some(
                        lines + (analysis.source_lines - rest.source_lines),
                    );
                    source_lines = rest.source_lines;
                },
                None => {},
            },
            None => {},
        }
        self.snapshot.coverage.tracked_entries = self.snapshot.coverage.tracked_entries + 1;
        self.snapshot.coverage.selected_files = self.snapshot.coverage.selected_files + 1;
        self.snapshot.coverage.parsed_files = self.snapshot.coverage.parsed_files + 1;
        self.snapshot.coverage.parsed_physical_lines = self.snapshot.coverage.parsed_physical_lines
            + analysis.physical_lines;
        self.snapshot.coverage.parsed_source_lines = self.snapshot.coverage.parsed_source_lines
            + source_lines;
        count_file(&mut self.snapshot.coverage.languages, language, true);
        let ghost middle = self@;
        assert(middle.coverage =~= with_parsed(
            before.coverage,
            language,
            analysis@,
            exclusion_model(exclusion),
        ));
        let functions = measured_functions(analysis, exclusion);
        let ghost models = function_models(functions@);
        assert(models.len() == functions@.len());
        self.record_functions(path, language, functions, ranks, keep);
        assert(self@ =~= recorded(
            before,
            path@,
            language,
            analysis@,
            exclusion_model(exclusion),
            ranks@,
            keep,
        )->Ok_0);
        Ok(())
    }

    fn record_failure(&mut self, path: &str, language: Language, analysis: &FileAnalysis)
        requires
            adds_up(old(self)@),
            has_room(old(self)@, analysis@),
            ({
                let counts = language_counts(old(self)@.coverage.languages, language);
                counts.selected_files < usize::MAX && counts.parsed_files < usize::MAX
                    && counts.failed_files < usize::MAX
            }),
        ensures
            final(self)@ == (SnapshotModel {
                coverage: with_failed(old(self)@.coverage, language, analysis.physical_lines),
                failures: old(self)@.failures.push(
                    (FailureModel {
                        path: path@,
                        language,
                        physical_lines: analysis.physical_lines,
                        diagnostics: analysis@.diagnostics,
                    }),
                ),
                ..old(self)@
            }),
    {
        let ghost before = self@;
        self.snapshot.coverage.tracked_entries = self.snapshot.coverage.tracked_entries + 1;
        self.snapshot.coverage.selected_files = self.snapshot.coverage.selected_files + 1;
        self.snapshot.coverage.failed_files = self.snapshot.coverage.failed_files + 1;
        self.snapshot.coverage.failed_physical_lines = self.snapshot.coverage.failed_physical_lines
            + analysis.physical_lines;
        count_file(&mut self.snapshot.coverage.languages, language, false);
        let diagnostics: Vec<ParseDiagnostic> = analysis.diagnostics.clone();
        assert(diagnostic_models(diagnostics@) =~= analysis@.diagnostics);
        let failure = FailedFile {
            path: path.to_owned(),
            language,
            physical_lines: analysis.physical_lines,
            diagnostics,
        };
        let ghost listed = failure@;
        self.snapshot.failures.push(failure);
        assert(self@.failures =~= before.failures.push(listed));
        assert(self@.coverage =~= with_failed(before.coverage, language, analysis.physical_lines));
    }

    fn record_functions(
        &mut self,
        path: &str,
        language: Language,
        functions: &Vec<FunctionMetrics>,
        ranks: &Vec<u64>,
        keep: bool,
    )
        requires
            ranks@.len() == functions@.len(),
            old(self)@.functions + functions@.len() <= usize::MAX,
            old(self)@.complex_functions + functions@.len() <= usize::MAX,
        ensures
            ({
                let models = function_models(functions@);
                let complex = complex_among(
                    path@,
                    language,
                    models,
                    ranks@,
                    models.len() as int,
                );
                &&& complex.len() <= models.len()
                &&& final(self)@ == (SnapshotModel {
                    functions: (old(self)@.functions + models.len()) as usize,
                    complex_functions: (old(self)@.complex_functions + complex.len()) as usize,
                    measurable: old(self)@.measurable || any_mass(models),
                    top_functions: if keep {
                        old(self)@.top_functions + complex
                    } else {
                        old(self)@.top_functions
                    },
                    ..old(self)@
                })
            }),
    {
        let ghost before = self@;
        let ghost models = function_models(functions@);
        let mut measurable: bool = self.snapshot.measurable;
        let mut complex: usize = 0;
        let mut k: usize = 0;
        assert(before.top_functions + Seq::<TopModel>::empty() =~= before.top_functions);
        while k < functions.len()
            invariant
                before == old(self)@,
                models == function_models(functions@),
                models.len() == functions@.len() == ranks@.len(),
                k <= functions@.len(),
                complex == complex_among(path@, language, models, ranks@, k as int).len(),
                complex <= k,
                measurable == (before.measurable || exists|n: int|
                    0 <= n < k && has_mass(#[trigger] models[n])),
                self@.top_functions == (if keep {
                    before.top_functions + complex_among(
                        path@,
                        language,
                        models,
                        ranks@,
                        k as int,
                    )
                } else {
                    before.top_functions
                }),
                self@ == (SnapshotModel { top_functions: self@.top_functions, ..before }),
            decreases functions@.len() - k,
        {
            let function: &FunctionMetrics = &functions[k];
            assert(models[k as int] == function@);
            let ghost known = self@.top_functions;
            let ghost sofar = complex_among(path@, language, models, ranks@, k as int);
            if function.complexity > 0 && function.source_lines > 0 {
                assert(has_mass(models[k as int]));
                measurable = true;
            }
            if function.complexity > COMPLEXITY_THRESHOLD {
                complex = complex + 1;
                if keep {
                    let item = TopFunction {
                        path: path.to_owned(),
                        language,
                        function: function.clone(),
                        rank: ranks[k],
                    };
                    let ghost model = item@;
                    self.snapshot.top_functions.push(item);
                    assert(self@.top_functions =~= known.push(model));
                    assert(known.push(model) =~= before.top_functions + sofar.push(model));
                }
            }
            k = k + 1;
        }
        assert(any_mass(models) == exists|n: int| 0 <= n < k && has_mass(#[trigger] models[n]));
        self.snapshot.functions = self.snapshot.functions + functions.len();
        self.snapshot.complex_functions = self.snapshot.complex_functions + complex;
        self.snapshot.measurable = measurable;
    }

    /// The snapshot when every entry is in, with the most massive of its complex
    /// callables.
    pub fn finish(self, top: usize) -> (snapshot: Snapshot)
        ensures
            snapshot@ == finished(self@, top),
            sound(self@) ==> sound(snapshot@),
    {
        let ghost before = self@;
        let mut snapshot = self.snapshot;
        if snapshot.commit.is_some() {
            snapshot.status = if snapshot.coverage.failed_files > 0 {
                Status::Partial
            } else if !snapshot.measurable {
                Status::NotMeasurable
            } else {
                Status::Complete
            };
        }
        let ghost all = top_models(snapshot.top_functions@);
        let mut ranked = rank_functions(snapshot.top_functions);
        if top < ranked.len() {
            let ghost whole = ranked@;
            ranked.truncate(top);
            assert(top_models(ranked@) =~= top_models(whole).subrange(0, top as int));
        }
        assert(top_models(ranked@) == top_of(all, top));
        snapshot.top_functions = ranked;
        assert(snapshot@ =~= finished(before, top));
        snapshot
    }
}

fn comes_before(a: &TopFunction, b: &TopFunction) -> (r: bool)
    ensures
        r == top_before(a@, b@),
{
    if a.rank != b.rank {
        a.rank > b.rank
    } else if !same(a.path.as_str(), b.path.as_str()) {
        less(a.path.as_str(), b.path.as_str())
    } else if a.function.start_line != b.function.start_line {
        a.function.start_line < b.function.start_line
    } else {
        a.function.end_line < b.function.end_line
    }
}

fn rank_functions(functions: Vec<TopFunction>) -> (ranked: Vec<TopFunction>)
    ensures
        top_models(ranked@) == sorted(top_models(functions@), top_order()),
        ranked@.len() == top_models(ranked@).len(),
{
    let ghost all = top_models(functions@);
    let ghost order = top_order();
    let mut rest = functions;
    let mut first: Vec<TopFunction> = Vec::new();
    while rest.len() > 0
        invariant
            all == top_models(rest@) + top_models(first@).reverse(),
        decreases rest@.len(),
    {
        let ghost known = rest@;
        let ghost taken = first@;
        match rest.pop() {
            Some(item) => {
                first.push(item);
            },
            None => {},
        }
        assert(all =~= top_models(rest@) + top_models(first@).reverse());
    }
    assert(all =~= top_models(first@).reverse());
    let mut ranked: Vec<TopFunction> = Vec::new();
    assert(top_models(ranked@) =~= sorted(all.subrange(0, 0), order));
    let ghost mut done: int = 0;
    while first.len() > 0
        invariant
            order == top_order(),
            0 <= done <= all.len(),
            first@.len() == all.len() - done,
            forall|i: int|
                0 <= i < first@.len() ==> (#[trigger] first@[i])@ == all[all.len() - 1 - i],
            top_models(ranked@) == sorted(all.subrange(0, done), order),
        decreases first@.len(),
    {
        let ghost before = first@;
        match first.pop() {
            Some(item) => {
                assert(before[before.len() - 1]@ == all[done]);
                assert(item@ == all[done]);
                assert(all.subrange(0, done + 1).drop_last() =~= all.subrange(0, done));
                insert_function(&mut ranked, item);
                proof {
                    done = done + 1;
                }
            },
            None => {},
        }
    }
    assert(all.subrange(0, done) =~= all);
    ranked
}

fn insert_function(ranked: &mut Vec<TopFunction>, item: TopFunction)
    ensures
        top_models(final(ranked)@) == insert_sorted(top_models(old(ranked)@), item@, top_order()),
{
    let ghost known = top_models(ranked@);
    let ghost order = top_order();
    let mut at: usize = ranked.len();
    while at > 0 && comes_before(&item, &ranked[at - 1])
        invariant
            at <= ranked@.len(),
            order == top_order(),
            known == top_models(ranked@),
            forall|k: int| at <= k < known.len() ==> order(item@, #[trigger] known[k]),
        decreases at,
    {
        at = at - 1;
        assert(known[at as int] == ranked@[at as int]@);
        assert(order(item@, known[at as int]));
    }
    proof {
        if at > 0 {
            assert(known[at - 1] == ranked@[at - 1]@);
        }
        assert(at == 0 || !order(item@, known[at - 1]));
        lemma_insert_at(known, item@, order, at as int);
    }
    ranked.insert(at, item);
    assert(top_models(ranked@) =~= known.insert(at as int, item@));
}

} // verus!
