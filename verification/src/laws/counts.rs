//! What a snapshot counts.

use vstd::prelude::*;

use crate::history::CheckpointModel;
use crate::languages::Language;
use crate::metrics::{AnalysisModel, ExclusionModel, FunctionModel, COMPLEXITY_THRESHOLD};
use crate::ordered::{lookup, put_and_lookup};
use crate::snapshot::{
    accumulated, any_mass, complex_among, counted_functions, empty_snapshot, filter_failure,
    filtered, finished, has_mass, has_room, recorded, shown_extension, top_before, with_count,
    with_excluded, with_file, with_skipped, CoverageModel, EntryClass, FailureModel,
    LanguageCoverage, RecordError, SnapshotModel, Status, TopModel,
};

verus! {

/// A callable is complex when its complexity is above ten.
pub proof fn complex_callables_are_above_ten(
    path: Seq<char>,
    language: Language,
    functions: Seq<FunctionModel>,
    ranks: Seq<u64>,
    n: int,
)
    requires
        0 <= n < functions.len(),
        ranks.len() == functions.len(),
    ensures
        COMPLEXITY_THRESHOLD == 10,
        complex_among(path, language, functions, ranks, 0).len() == 0,
        functions[n].complexity <= 10 ==> complex_among(path, language, functions, ranks, n + 1)
            == complex_among(path, language, functions, ranks, n),
        functions[n].complexity >= 11 ==> complex_among(path, language, functions, ranks, n + 1)
            == complex_among(path, language, functions, ranks, n).push(
            TopModel { path, language, function: functions[n], rank: ranks[n] },
        ),
{
}

/// A callable has mass when it has complexity and source lines; a source can be scored
/// when one of its callables has mass.
pub proof fn mass_needs_complexity_and_lines(functions: Seq<FunctionModel>, k: int)
    requires
        0 <= k < functions.len(),
    ensures
        has_mass(functions[k]) <==> functions[k].complexity >= 1 && functions[k].source_lines >= 1,
        functions[k].complexity >= 1 && functions[k].source_lines >= 1 ==> any_mass(functions),
        (forall|j: int|
            0 <= j < functions.len() ==> (#[trigger] functions[j]).complexity == 0
                || functions[j].source_lines == 0) ==> !any_mass(functions),
{
}

/// A snapshot starts with nothing counted. Without a commit that is its status; with one
/// there is nothing to measure yet. Test code is counted exactly where it is left out.
pub proof fn snapshots_start_empty(checkpoint: CheckpointModel, exclude_tests: bool)
    ensures
        ({
            let s = empty_snapshot(checkpoint, exclude_tests);
            let c = s.coverage;
            &&& s.cutoff_utc == checkpoint.cutoff
            &&& s.commit == checkpoint.commit
            &&& s.status == Status::NoCommit <==> checkpoint.commit is None
            &&& s.status == Status::NotMeasurable <==> checkpoint.commit is Some
            &&& s.functions == 0 && s.complex_functions == 0
            &&& !s.measurable && !s.comparable
            &&& s.failures.len() == 0 && s.top_functions.len() == 0
            &&& c.tracked_entries == 0 && c.excluded_entries == 0 && c.non_regular_entries == 0
            &&& c.unsupported_files == 0 && c.selected_files == 0 && c.parsed_files == 0
            &&& c.failed_files == 0 && c.parsed_physical_lines == 0 && c.failed_physical_lines == 0
            &&& c.parsed_source_lines == 0
            &&& c.unsupported_extensions.len() == 0 && c.languages.len() == 0
            &&& c.test_excluded_entries == if exclude_tests {
                Some(0usize)
            } else {
                None
            }
            &&& c.syntax_test_files == c.test_excluded_entries
            &&& c.test_excluded_functions == c.test_excluded_entries
            &&& c.test_excluded_source_lines == c.test_excluded_entries
        }),
{
}

/// An entry outside the scope counts as tracked and excluded, and as nothing else.
pub proof fn excluded_entries_count(c: CoverageModel)
    requires
        c.tracked_entries < usize::MAX,
        c.excluded_entries < usize::MAX,
    ensures
        with_excluded(c).tracked_entries == c.tracked_entries + 1,
        with_excluded(c).excluded_entries == c.excluded_entries + 1,
        with_excluded(c) == (CoverageModel {
            tracked_entries: with_excluded(c).tracked_entries,
            excluded_entries: with_excluded(c).excluded_entries,
            ..c
        }),
{
}

/// An entry that is skipped counts as tracked and by its class: as no plain file, as
/// unsupported under its extension, or as excluded for being a test.
pub proof fn skipped_entries_count(c: CoverageModel, path: Seq<char>, language: Language)
    requires
        c.tracked_entries < usize::MAX,
        c.excluded_entries < usize::MAX,
        c.non_regular_entries < usize::MAX,
        c.unsupported_files < usize::MAX,
        c.test_excluded_entries is Some ==> c.test_excluded_entries->0 < usize::MAX,
    ensures
        ({
            let link = with_skipped(c, path, EntryClass::NonRegular);
            let other = with_skipped(c, path, EntryClass::Unsupported);
            let test = with_skipped(c, path, EntryClass::Test(language));
            &&& link == (CoverageModel {
                tracked_entries: link.tracked_entries,
                non_regular_entries: link.non_regular_entries,
                ..c
            })
            &&& link.tracked_entries == c.tracked_entries + 1
            &&& link.non_regular_entries == c.non_regular_entries + 1
            &&& other == (CoverageModel {
                tracked_entries: other.tracked_entries,
                unsupported_files: other.unsupported_files,
                unsupported_extensions: with_count(
                    c.unsupported_extensions,
                    shown_extension(path),
                ),
                ..c
            })
            &&& other.tracked_entries == c.tracked_entries + 1
            &&& other.unsupported_files == c.unsupported_files + 1
            &&& test == (CoverageModel {
                tracked_entries: test.tracked_entries,
                excluded_entries: test.excluded_entries,
                test_excluded_entries: test.test_excluded_entries,
                ..c
            })
            &&& test.tracked_entries == c.tracked_entries + 1
            &&& test.excluded_entries == c.excluded_entries + 1
            &&& test.test_excluded_entries is Some <==> c.test_excluded_entries is Some
            &&& c.test_excluded_entries is Some ==> test.test_excluded_entries->0
                == c.test_excluded_entries->0 + 1
        }),
{
}

/// Counting under a key raises its count by one, from zero where it had none, and leaves
/// the other counts alone.
pub proof fn counts_rise_by_one(
    entries: Seq<(Seq<char>, usize)>,
    key: Seq<char>,
    other: Seq<char>,
)
    requires
        crate::ordered::keys_ascend(entries),
        lookup(entries, key) is Some ==> lookup(entries, key)->0 < usize::MAX,
    ensures
        lookup(entries, key) is None ==> lookup(with_count(entries, key), key) == Some(1usize),
        lookup(entries, key) is Some ==> lookup(with_count(entries, key), key) is Some && lookup(
            with_count(entries, key),
            key,
        )->0 == lookup(entries, key)->0 + 1,
        other != key ==> lookup(with_count(entries, key), other) == lookup(entries, other),
{
    let value = (match lookup(entries, key) {
        Some(n) => n + 1,
        None => 1,
    }) as usize;
    put_and_lookup(entries, key, value, key);
    put_and_lookup(entries, key, value, other);
}

/// A file counts once for its language: as selected, and as parsed or failed.
pub proof fn files_count_for_their_language(
    languages: Seq<(Seq<char>, LanguageCoverage)>,
    language: Language,
    parsed: bool,
    other: Seq<char>,
    before: LanguageCoverage,
)
    requires
        crate::ordered::keys_ascend(languages),
        lookup(languages, language.name()) is Some ==> lookup(languages, language.name())
            == Some(before),
        lookup(languages, language.name()) is None ==> before.selected_files == 0
            && before.parsed_files == 0 && before.failed_files == 0,
        before.selected_files < usize::MAX,
        before.parsed_files < usize::MAX,
        before.failed_files < usize::MAX,
    ensures
        ({
            let after = lookup(with_file(languages, language, parsed), language.name());
            &&& after is Some
            &&& after->0.selected_files == before.selected_files + 1
            &&& parsed ==> after->0.parsed_files == before.parsed_files + 1
                && after->0.failed_files == before.failed_files
            &&& !parsed ==> after->0.parsed_files == before.parsed_files && after->0.failed_files
                == before.failed_files + 1
            &&& other != language.name() ==> lookup(with_file(languages, language, parsed), other)
                == lookup(languages, other)
        }),
{
    let value = LanguageCoverage {
        selected_files: (before.selected_files + 1) as usize,
        parsed_files: (before.parsed_files + if parsed {
            1int
        } else {
            0
        }) as usize,
        failed_files: (before.failed_files + if parsed {
            0int
        } else {
            1
        }) as usize,
    };
    assert(crate::snapshot::language_counts(languages, language) == before);
    put_and_lookup(languages, language.name(), value, language.name());
    put_and_lookup(languages, language.name(), value, other);
}

/// A file with diagnostics fails: it counts as tracked, selected and failed with its
/// physical lines, is reported under its path, and adds nothing to the score.
pub proof fn failed_files_count(
    s: SnapshotModel,
    path: Seq<char>,
    language: Language,
    analysis: AnalysisModel,
    exclusion: Option<ExclusionModel>,
    ranks: Seq<u64>,
    keep: bool,
)
    requires
        analysis.diagnostics.len() > 0,
        has_room(s, analysis),
        s.coverage.selected_files < usize::MAX,
        s.coverage.failed_files < usize::MAX,
    ensures
        ({
            let after = recorded(s, path, language, analysis, exclusion, ranks, keep);
            let c = after->Ok_0.coverage;
            &&& after is Ok
            &&& after->Ok_0 == (SnapshotModel { coverage: c, failures: after->Ok_0.failures, ..s })
            &&& after->Ok_0.failures == s.failures.push(
                FailureModel {
                    path,
                    language,
                    physical_lines: analysis.physical_lines,
                    diagnostics: analysis.diagnostics,
                },
            )
            &&& c == (CoverageModel {
                tracked_entries: c.tracked_entries,
                selected_files: c.selected_files,
                failed_files: c.failed_files,
                failed_physical_lines: c.failed_physical_lines,
                languages: with_file(s.coverage.languages, language, false),
                ..s.coverage
            })
            &&& c.tracked_entries == s.coverage.tracked_entries + 1
            &&& c.selected_files == s.coverage.selected_files + 1
            &&& c.failed_files == s.coverage.failed_files + 1
            &&& c.failed_physical_lines == s.coverage.failed_physical_lines
                + analysis.physical_lines
        }),
{
}

proof fn lemma_complex_bound(
    path: Seq<char>,
    language: Language,
    functions: Seq<FunctionModel>,
    ranks: Seq<u64>,
    n: int,
)
    requires
        0 <= n,
    ensures
        complex_among(path, language, functions, ranks, n).len() <= n,
    decreases n,
{
    if n > 0 {
        lemma_complex_bound(path, language, functions, ranks, n - 1);
    }
}

/// What is left of a parsed file counts: all of it, or what remains without its tests.
pub proof fn parsed_files_count(
    s: SnapshotModel,
    path: Seq<char>,
    language: Language,
    analysis: AnalysisModel,
    exclusion: Option<ExclusionModel>,
    ranks: Seq<u64>,
    keep: bool,
)
    requires
        analysis.diagnostics.len() == 0,
        has_room(s, analysis),
        s.coverage.selected_files < usize::MAX,
        s.coverage.parsed_files < usize::MAX,
        recorded(s, path, language, analysis, exclusion, ranks, keep) is Ok,
    ensures
        ({
            let after = recorded(s, path, language, analysis, exclusion, ranks, keep)->Ok_0;
            let c = after.coverage;
            let filters = exclusion is Some && exclusion->0.without_tests is Some;
            let functions = if filters {
                exclusion->0.without_tests->0.functions
            } else {
                analysis.functions
            };
            let lines = if filters {
                exclusion->0.without_tests->0.source_lines
            } else {
                analysis.source_lines
            };
            let complex = complex_among(path, language, functions, ranks, functions.len() as int);
            &&& after.functions == s.functions + functions.len()
            &&& after.complex_functions == s.complex_functions + complex.len()
            &&& after.measurable <==> s.measurable || any_mass(functions)
            &&& after.comparable == s.comparable && after.status == s.status
            &&& after.commit == s.commit && after.cutoff_utc == s.cutoff_utc
            &&& after.failures == s.failures
            &&& after.top_functions == if keep {
                s.top_functions + complex
            } else {
                s.top_functions
            }
            &&& c.tracked_entries == s.coverage.tracked_entries + 1
            &&& c.selected_files == s.coverage.selected_files + 1
            &&& c.parsed_files == s.coverage.parsed_files + 1
            &&& c.failed_files == s.coverage.failed_files
            &&& c.parsed_physical_lines == s.coverage.parsed_physical_lines
                + analysis.physical_lines
            &&& c.failed_physical_lines == s.coverage.failed_physical_lines
            &&& c.parsed_source_lines == s.coverage.parsed_source_lines + lines
            &&& c.languages == with_file(s.coverage.languages, language, true)
            &&& c.excluded_entries == s.coverage.excluded_entries
            &&& c.non_regular_entries == s.coverage.non_regular_entries
            &&& c.unsupported_files == s.coverage.unsupported_files
            &&& c.unsupported_extensions == s.coverage.unsupported_extensions
            &&& c.test_excluded_entries == s.coverage.test_excluded_entries
            &&& !filters ==> c.syntax_test_files == s.coverage.syntax_test_files
                && c.test_excluded_functions == s.coverage.test_excluded_functions
                && c.test_excluded_source_lines == s.coverage.test_excluded_source_lines
            &&& filters ==> {
                &&& c.syntax_test_files is Some && c.syntax_test_files->0
                    == s.coverage.syntax_test_files->0 + 1
                &&& c.test_excluded_functions is Some && c.test_excluded_functions->0
                    == s.coverage.test_excluded_functions->0 + analysis.functions.len()
                    - functions.len()
                &&& c.test_excluded_source_lines is Some && c.test_excluded_source_lines->0
                    == s.coverage.test_excluded_source_lines->0 + analysis.source_lines - lines
            }
        }),
{
    assert(filter_failure(s.coverage, analysis, exclusion) is None);
    let functions = counted_functions(analysis, exclusion);
    lemma_complex_bound(path, language, functions, ranks, functions.len() as int);
}

/// A filtered result is refused where test code is not counted, or where it claims more
/// than the whole file has.
pub proof fn filtered_results_that_are_refused(
    c: CoverageModel,
    analysis: AnalysisModel,
    exclusion: Option<ExclusionModel>,
)
    ensures
        ({
            let failure = filter_failure(c, analysis, exclusion);
            let filters = exclusion is Some && exclusion->0.without_tests is Some;
            let rest = exclusion->0.without_tests->0;
            let more_functions = rest.functions.len() > analysis.functions.len();
            let more_lines = rest.source_lines > analysis.source_lines;
            &&& failure == Some(RecordError::MissingTestCoverage) <==> filters
                && c.syntax_test_files is None
            &&& failure == Some(RecordError::FunctionCount) <==> filters
                && c.syntax_test_files is Some && more_functions
            &&& failure == Some(RecordError::MissingFunctionCoverage) <==> filters
                && c.syntax_test_files is Some && !more_functions
                && c.test_excluded_functions is None
            &&& failure == Some(RecordError::SourceCount) <==> filters
                && c.syntax_test_files is Some && !more_functions
                && c.test_excluded_functions is Some && more_lines
            &&& failure == Some(RecordError::MissingLineCoverage) <==> filters
                && c.syntax_test_files is Some && !more_functions
                && c.test_excluded_functions is Some && !more_lines
                && c.test_excluded_source_lines is None
            &&& failure is None <==> !filters || (c.syntax_test_files is Some && !more_functions
                && c.test_excluded_functions is Some && !more_lines
                && c.test_excluded_source_lines is Some)
        }),
{
}

/// An entry adds to a snapshot by its class: outside the scope, skipped, or measured.
pub proof fn entries_add_by_class(
    s: SnapshotModel,
    entry: crate::git::EntryModel,
    class: Option<EntryClass>,
    language: Language,
    analysis: AnalysisModel,
    exclusion: Option<ExclusionModel>,
    ranks: Seq<u64>,
    keep: bool,
)
    ensures
        ({
            let after = accumulated(s, entry, class, analysis, exclusion, ranks, keep);
            &&& class is None ==> after == Ok::<_, RecordError>(
                SnapshotModel { coverage: with_excluded(s.coverage), ..s },
            )
            &&& class == Some(EntryClass::Source(language)) ==> after == recorded(
                s,
                entry.path,
                language,
                analysis,
                exclusion,
                ranks,
                keep,
            )
            &&& class is Some && !(class->0 is Source) ==> after == Ok::<_, RecordError>(
                SnapshotModel { coverage: with_skipped(s.coverage, entry.path, class->0), ..s },
            )
        }),
{
}

/// A finished snapshot of a commit is partial where files failed, not measurable where
/// nothing has mass, and complete otherwise. Nothing but the status and the list of
/// complex callables changes.
pub proof fn finished_snapshots_have_a_status(s: SnapshotModel, top: usize)
    ensures
        ({
            let after = finished(s, top);
            &&& s.commit is None ==> after.status == s.status
            &&& s.commit is Some ==> {
                &&& after.status == Status::Partial <==> s.coverage.failed_files >= 1
                &&& after.status == Status::NotMeasurable <==> s.coverage.failed_files == 0
                    && !s.measurable
                &&& after.status == Status::Complete <==> s.coverage.failed_files == 0
                    && s.measurable
            }
            &&& after == (SnapshotModel {
                status: after.status,
                top_functions: after.top_functions,
                ..s
            })
            &&& after.top_functions.len() <= top
            &&& s.top_functions.len() <= top ==> after.top_functions.len()
                == s.top_functions.len()
            &&& s.top_functions.len() > top ==> after.top_functions.len() == top
        }),
{
    crate::sort::sorted_keeps_items(s.top_functions, crate::snapshot::top_order());
}

/// Of two complex callables the one with more mass comes first; of two with the same
/// mass the one whose path, start or end comes first.
pub proof fn mass_ranks_callables(a: TopModel, b: TopModel)
    ensures
        a.rank > b.rank ==> top_before(a, b) && !top_before(b, a),
        a.rank == b.rank && a.path != b.path ==> (top_before(a, b) <==> crate::text::text_less(
            a.path,
            b.path,
        )),
        a.rank == b.rank && a.path == b.path && a.function.start_line < b.function.start_line
            ==> top_before(a, b) && !top_before(b, a),
        a.rank == b.rank && a.path == b.path && a.function.start_line == b.function.start_line
            && a.function.end_line < b.function.end_line ==> top_before(a, b) && !top_before(b, a),
        a.rank == b.rank && a.path == b.path && a.function.start_line == b.function.start_line
            && a.function.end_line == b.function.end_line ==> !top_before(a, b),
{
}

} // verus!
