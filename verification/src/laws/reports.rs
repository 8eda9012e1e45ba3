//! What reports say, which modules they group by, and how they are rendered.

use vstd::prelude::*;
use vstd::utf8::encode_utf8;

use crate::calendar::shown_instant;
use crate::format::{debug_text, decimal};
use crate::git::EntryModel;
use crate::globs::glob_matches;
use crate::history::CheckpointModel;
use crate::languages::Language;
use crate::laws::tables::{begins, shows};
use crate::laws::texts::{lemma_find_behind, texts_are_split};
use crate::modules::{
    compared_series, directory_end, inventory_of, is_selected, module_config_json, module_count,
    module_failure_count, module_failure_lines, module_finished, module_key, modules_file_scope,
    modules_schema, outside_count, selected_count, unselected_count, ModuleConfigModel,
    ModuleReport, SeriesModel,
};
use crate::output::{
    all_figures_models, figures_models, footer, module_blocks, modules_showable, showable,
    table_body, Format,
};
use crate::records::{
    all_columns_models, columns_models, modules_recordable, modules_records, report_records,
};
use crate::render::{modules_rendered, rendered, ModuleParts, Parts, RenderFailure};
use crate::report::{
    compared, current_identity, diagnostic_line, failure_count, failure_line, failure_lines,
    file_lines, incomplete_message, scope_schema, snapshot_lines, Report,
};
use crate::scope_history::{category, category_count, has_status, scope_class, Category};
use crate::snapshot::{entry_class, finished, snapshot_models, FailureModel, SnapshotModel, Status};
use crate::config::{in_scope, ConfigModel};

verus! {

/// A snapshot can be compared exactly where it and the one before it have scores.
/// Comparing changes nothing else.
pub proof fn snapshots_compare_with_the_one_before(snapshots: Seq<SnapshotModel>, i: int)
    requires
        0 <= i < snapshots.len(),
    ensures
        compared(snapshots).len() == snapshots.len(),
        compared(snapshots)[i].comparable <==> i >= 1 && snapshots[i].measurable && snapshots[i
            - 1].measurable,
        compared(snapshots)[i] == (SnapshotModel {
            comparable: compared(snapshots)[i].comparable,
            ..snapshots[i]
        }),
{
}

/// The same holds in each module.
pub proof fn modules_compare_with_the_one_before(series: Seq<SeriesModel>, k: int)
    requires
        0 <= k < series.len(),
    ensures
        compared_series(series).len() == series.len(),
        compared_series(series)[k].path == series[k].path,
        compared_series(series)[k].snapshots == compared(series[k].snapshots),
{
}

/// What the measurement calls itself.
pub proof fn identity_of_the_metric(fingerprint: Seq<char>)
    ensures
        current_identity(fingerprint).name == "erosion"@,
        current_identity(fingerprint).version == "erosion-v3"@,
        current_identity(fingerprint).analyzer_fingerprint == fingerprint,
        current_identity(fingerprint).complexity_threshold == 10,
        current_identity(fingerprint).formula
            == "100 * sum(CC * sqrt(SLOC) where CC > 10) / sum(CC * sqrt(SLOC))"@,
        current_identity(fingerprint).parser_versions
            == "tree-sitter=0.25.2;javascript=0.25.0;typescript=0.23.2-erosion.2;python=0.25.0;rust=0.24.2-erosion.1;gleam=git-cefbd686"@,
{
}

/// The four kinds of report have schemas of their own, and modules say which files they
/// count.
pub proof fn schemas_tell_reports_apart()
    ensures
        scope_schema(false) == 1,
        modules_schema(false) == 2,
        scope_schema(true) == 3,
        modules_schema(true) == 4,
        modules_file_scope(false) == "all_tracked_entries"@,
        modules_file_scope(true) == "exclude_language_tests"@,
{
}

/// A file that failed is reported with the time of its checkpoint, its commit, its path
/// and its physical lines.
pub proof fn failures_are_described(s: SnapshotModel, failure: FailureModel)
    ensures
        ({
            let line = failure_line(s, failure);
            let commit = if s.commit is Some {
                s.commit->0.sha
            } else {
                "no commit"@
            };
            &&& begins(
                line,
                "Parse failure at "@ + shown_instant(s.cutoff_utc) + " ("@ + commit + "): "@,
            )
            &&& shows(
                line,
                debug_text(failure.path) + " ("@ + decimal(failure.physical_lines as nat)
                    + " physical lines)"@,
            )
        }),
{
    let commit = if s.commit is Some {
        s.commit->0.sha
    } else {
        "no commit"@
    };
    lemma_failure(
        "Parse failure at "@,
        shown_instant(s.cutoff_utc),
        " ("@,
        commit,
        "): "@,
        debug_text(failure.path),
        " ("@,
        decimal(failure.physical_lines as nat),
        " physical lines)"@,
    );
}

proof fn lemma_failure(
    a: Seq<char>,
    b: Seq<char>,
    c: Seq<char>,
    d: Seq<char>,
    e: Seq<char>,
    f: Seq<char>,
    g: Seq<char>,
    h: Seq<char>,
    i: Seq<char>,
)
    ensures
        begins(a + b + c + d + e + f + g + h + i, a + b + c + d + e),
        shows(a + b + c + d + e + f + g + h + i, f + g + h + i),
{
    let all = a + b + c + d + e + f + g + h + i;
    assert(all =~= (a + b + c + d + e) + (f + g + h + i));
    assert(all =~= (a + b + c + d + e) + (f + g + h + i) + Seq::<char>::empty());
}

/// Below it stand its diagnostics, each with its line, its column and its message, in
/// their order.
pub proof fn diagnostics_follow_their_file(s: SnapshotModel, failure: FailureModel, k: int)
    requires
        0 <= k < failure.diagnostics.len(),
    ensures
        file_lines(s, failure).len() == failure.diagnostics.len() + 1,
        file_lines(s, failure)[0] == failure_line(s, failure),
        file_lines(s, failure)[k + 1] == "  "@ + decimal(failure.diagnostics[k].line as nat) + ":"@
            + decimal(failure.diagnostics[k].column as nat) + " "@
            + failure.diagnostics[k].message,
        diagnostic_line(failure.diagnostics[k]) == file_lines(s, failure)[k + 1],
{
}

/// Failures are listed snapshot by snapshot and file by file, and each counts once.
pub proof fn failures_are_listed(
    snapshots: Seq<SnapshotModel>,
    n: int,
    s: SnapshotModel,
    k: int,
)
    requires
        0 <= n < snapshots.len(),
        0 <= k < s.failures.len(),
    ensures
        failure_lines(snapshots, 0).len() == 0,
        failure_count(snapshots, 0) == 0,
        snapshot_lines(s, 0).len() == 0,
        snapshot_lines(s, k + 1) == snapshot_lines(s, k) + file_lines(s, s.failures[k]),
        failure_lines(snapshots, n + 1) == failure_lines(snapshots, n) + snapshot_lines(
            snapshots[n],
            snapshots[n].failures.len() as int,
        ),
        failure_count(snapshots, n + 1) == failure_count(snapshots, n)
            + snapshots[n].failures.len(),
{
}

/// In modules, they are listed module by module.
pub proof fn failures_of_modules_are_listed(series: Seq<SeriesModel>, n: int)
    requires
        0 <= n < series.len(),
    ensures
        module_failure_lines(series, 0).len() == 0,
        module_failure_count(series, 0) == 0,
        module_failure_lines(series, n + 1) == module_failure_lines(series, n) + failure_lines(
            series[n].snapshots,
            series[n].snapshots.len() as int,
        ),
        module_failure_count(series, n + 1) == module_failure_count(series, n) + failure_count(
            series[n].snapshots,
            series[n].snapshots.len() as int,
        ),
{
}

/// An incomplete report says how many files failed, and how to have it all the same.
pub proof fn incomplete_reports_say_so(failed: nat)
    ensures
        begins(incomplete_message(failed), decimal(failed) + " file/checkpoint parse failures"@),
        shows(incomplete_message(failed), "--allow-partial"@),
{
    let a = " file/checkpoint parse failures"@;
    let b = "; no results emitted. Use "@;
    let c = "--allow-partial"@;
    let d = " to explicitly report incomplete measurements"@;
    reveal_strlit(
        " file/checkpoint parse failures; no results emitted. Use --allow-partial to explicitly report incomplete measurements",
    );
    reveal_strlit(" file/checkpoint parse failures");
    reveal_strlit("; no results emitted. Use ");
    reveal_strlit("--allow-partial");
    reveal_strlit(" to explicitly report incomplete measurements");
    let whole =
        " file/checkpoint parse failures; no results emitted. Use --allow-partial to explicitly report incomplete measurements"@;
    assert(whole =~= a + b + c + d);
    lemma_incomplete(decimal(failed), a, b, c, d);
}

proof fn lemma_incomplete(n: Seq<char>, a: Seq<char>, b: Seq<char>, c: Seq<char>, d: Seq<char>)
    ensures
        begins(n + (a + b + c + d), n + a),
        shows(n + (a + b + c + d), c),
{
    assert(n + (a + b + c + d) =~= (n + a) + (b + c + d));
    assert(n + (a + b + c + d) =~= (n + a + b) + c + d);
}

proof fn lemma_directory_behind(path: Seq<char>, rest: Seq<char>, m: int, n: nat, at: int)
    requires
        n > 0,
        0 <= at <= rest.len(),
        0 <= m,
        path.len() == m + rest.len(),
        forall|k: int| 0 <= k < rest.len() ==> #[trigger] rest[k] == path[m + k],
    ensures
        directory_end(path, n, m + at) == m + directory_end(rest, n, at),
        at <= directory_end(rest, n, at) <= rest.len(),
    decreases n,
{
    lemma_find_behind(path, rest, '/', m, at);
    let end = find_slash(rest, at);
    if end < rest.len() && n > 1 {
        lemma_directory_behind(path, rest, m, (n - 1) as nat, end + 1);
    }
}

spec fn find_slash(path: Seq<char>, at: int) -> int {
    crate::text::find_char(path, '/', at)
}

/// The module of a path is made of its first directories, as many as the depth says. A
/// path with fewer directories stands in no module.
pub proof fn modules_are_first_directories(directory: Seq<char>, rest: Seq<char>, depth: usize)
    requires
        !directory.contains('/'),
        depth >= 1,
    ensures
        module_key(directory, depth) is None,
        module_key(directory + seq!['/'] + rest, 1) == Some(directory),
        depth >= 2 ==> module_key(directory + seq!['/'] + rest, depth) == match module_key(
            rest,
            (depth - 1) as usize,
        ) {
            Some(inner) => Some(directory + seq!['/'] + inner),
            None => None,
        },
{
    texts_are_split(directory, '/', rest);
    let path = directory + seq!['/'] + rest;
    let n = directory.len() as int;
    assert(path.subrange(0, n) =~= directory);
    if depth >= 2 {
        assert forall|k: int| 0 <= k < rest.len() implies #[trigger] rest[k] == path[n + 1 + k] by {}
        lemma_directory_behind(path, rest, n + 1, (depth - 1) as nat, 0);
        let end = directory_end(rest, (depth - 1) as nat, 0);
        assert(directory_end(path, depth as nat, 0) == n + 1 + end);
        if end < rest.len() {
            assert(path.subrange(0, n + 1 + end) =~= directory + seq!['/'] + rest.subrange(
                0,
                end,
            ));
        }
    }
}

/// Without patterns every module is selected; with patterns one that some pattern
/// matches.
pub proof fn patterns_select_modules(globs: Seq<Seq<char>>, key: Seq<char>)
    ensures
        globs.len() == 0 ==> is_selected(globs, key),
        globs.len() > 0 ==> (is_selected(globs, key) <==> exists|k: int|
            0 <= k < globs.len() && #[trigger] glob_matches(globs[k], true, key)),
{
    let list = crate::globs::globs_of(globs, true);
    assert forall|k: int| 0 <= k < globs.len() implies list[k] == (#[trigger] globs[k], true) by {}
    if exists|k: int| 0 <= k < globs.len() && #[trigger] glob_matches(globs[k], true, key) {
        let k = choose|k: int|
            0 <= k < globs.len() && #[trigger] glob_matches(globs[k], true, key);
        assert(glob_matches(list[k].0, list[k].1, key));
    }
    if crate::globs::any_matches(list, key) {
        let k = choose|k: int|
            0 <= k < list.len() && #[trigger] glob_matches(list[k].0, list[k].1, key);
        assert(glob_matches(globs[k], true, key));
    }
}

/// Each entry is counted once: outside the depth, in a module that is not selected, or
/// in a selected one.
pub proof fn inventories_count_each_entry(
    checkpoint: CheckpointModel,
    entries: Seq<EntryModel>,
    depth: usize,
    modules: Seq<(Seq<char>, ())>,
    n: int,
    at: int,
)
    requires
        0 <= n < entries.len(),
    ensures
        outside_count(entries, depth, 0) == 0,
        unselected_count(entries, depth, modules, 0) == 0,
        selected_count(entries, depth, modules, 0) == 0,
        module_count(entries, depth, modules, at, 0) == 0,
        ({
            let key = module_key(entries[n].path, depth);
            let known = key is Some && crate::ordered::lookup(modules, key->0) is Some;
            let here = 0 <= at < modules.len() && key == Some(modules[at].0);
            &&& outside_count(entries, depth, n + 1) == outside_count(entries, depth, n)
                + if key is None {
                1int
            } else {
                0
            }
            &&& unselected_count(entries, depth, modules, n + 1) == unselected_count(
                entries,
                depth,
                modules,
                n,
            ) + if key is Some && !known {
                1int
            } else {
                0
            }
            &&& selected_count(entries, depth, modules, n + 1) == selected_count(
                entries,
                depth,
                modules,
                n,
            ) + if known {
                1int
            } else {
                0
            }
            &&& module_count(entries, depth, modules, at, n + 1) == module_count(
                entries,
                depth,
                modules,
                at,
                n,
            ) + if here {
                1int
            } else {
                0
            }
        }),
        ({
            let i = inventory_of(checkpoint, entries, depth, modules, n);
            &&& i.cutoff_utc == checkpoint.cutoff && i.commit == checkpoint.commit
            &&& i.tracked_entries == n as usize
            &&& i.outside_depth_entries == outside_count(entries, depth, n) as usize
            &&& i.unselected_module_entries == unselected_count(
                entries,
                depth,
                modules,
                n,
            ) as usize
            &&& i.selected_module_entries == selected_count(entries, depth, modules, n) as usize
        }),
{
}

/// A module without entries in a commit has no files; otherwise its status is that of
/// any snapshot. A module lists no complex callables.
pub proof fn empty_modules_have_no_files(s: SnapshotModel)
    ensures
        s.commit is Some && s.coverage.tracked_entries == 0 ==> module_finished(s).status
            == Status::NoFiles,
        !(s.commit is Some && s.coverage.tracked_entries == 0) ==> module_finished(s).status
            == finished(s, 0).status,
        module_finished(s).top_functions.len() == 0,
        module_finished(s).measurable == s.measurable,
        module_finished(s).functions == s.functions,
        module_finished(s).coverage == s.coverage,
{
}

/// An entry is measured by its class where it is in scope.
pub proof fn entries_in_scope_have_a_class(
    entry: EntryModel,
    config: ConfigModel,
    excludes: bool,
    language: Language,
)
    ensures
        scope_class(entry, config, excludes) is Some <==> in_scope(config, entry.path),
        in_scope(config, entry.path) ==> scope_class(entry, config, excludes) == Some(
            entry_class(entry, excludes),
        ),
        ({
            let found = category(entry, config, excludes);
            let inside = in_scope(config, entry.path);
            let class = entry_class(entry, excludes);
            &&& found == Category::OutOfScope <==> !inside
            &&& found == Category::Test <==> inside && class is Test
            &&& found == Category::NonRegular <==> inside && class is NonRegular
            &&& found == Category::Unsupported <==> inside && class is Unsupported
            &&& found == Category::Selected <==> inside && class is Source
        }),
{
}

/// Entries are counted by category, one at a time.
pub proof fn categories_count_each_entry(
    entries: Seq<EntryModel>,
    config: ConfigModel,
    excludes: bool,
    which: Category,
    n: int,
)
    requires
        0 <= n < entries.len(),
    ensures
        category_count(entries, config, excludes, which, 0) == 0,
        category(entries[n], config, excludes) == which ==> category_count(
            entries,
            config,
            excludes,
            which,
            n + 1,
        ) == category_count(entries, config, excludes, which, n) + 1,
        category(entries[n], config, excludes) != which ==> category_count(
            entries,
            config,
            excludes,
            which,
            n + 1,
        ) == category_count(entries, config, excludes, which, n),
{
}

/// The status of a snapshot follows from what it holds.
pub proof fn statuses_follow_from_counts(s: SnapshotModel)
    requires
        has_status(s),
    ensures
        s.status == Status::NoCommit <==> s.commit is None,
        s.status == Status::Partial <==> s.commit is Some && s.coverage.failed_files >= 1,
        s.status == Status::NotMeasurable <==> s.commit is Some && s.coverage.failed_files == 0
            && !s.measurable,
        s.status == Status::Complete <==> s.commit is Some && s.coverage.failed_files == 0
            && s.measurable,
{
}

/// A report is rendered as its JSON text and a line feed, as its records, or as its
/// table and what explains it.
pub proof fn reports_are_rendered(report: Report, every_commit: bool, parts: Parts)
    ensures
        rendered(report, Format::Json, every_commit, parts) == Ok::<_, RenderFailure>(
            parts.json@ + seq!['\n' as u8],
        ),
        ({
            let n = report.snapshots@.len();
            let found = rendered(report, Format::Csv, every_commit, parts);
            &&& parts.figures@.len() == n && parts.columns@.len() == n ==> found == Ok::<
                _,
                RenderFailure,
            >(
                report_records(
                    report,
                    figures_models(parts.figures@),
                    columns_models(parts.columns@),
                    n as int,
                ),
            )
            &&& parts.figures@.len() != n || parts.columns@.len() != n ==> found == Err::<
                Seq<u8>,
                _,
            >(RenderFailure::Unfit)
        }),
        ({
            let found = rendered(report, Format::Table, every_commit, parts);
            let snapshots = snapshot_models(report.snapshots@);
            let body = table_body(
                report.mode@,
                snapshots,
                figures_models(parts.figures@),
                parts.overall@,
                every_commit,
                report.test_exclusion is Some,
            );
            &&& !showable(report.snapshots@, parts.figures@) ==> found == Err::<Seq<u8>, _>(
                RenderFailure::Unfit,
            )
            &&& showable(report.snapshots@, parts.figures@) && body is Ok ==> found == Ok::<
                _,
                RenderFailure,
            >(encode_utf8(body->Ok_0 + footer(report.mode@, snapshots)))
            &&& showable(report.snapshots@, parts.figures@) && body is Err ==> found == Err::<
                Seq<u8>,
                _,
            >(RenderFailure::Table { failure: body->Err_0 })
        }),
{
    assert('\n' as u8 == 10u8);
    assert(parts.json@.push(10u8) =~= parts.json@ + seq![10u8]);
}

/// So is a report on modules.
pub proof fn module_reports_are_rendered(report: ModuleReport, parts: ModuleParts)
    ensures
        modules_rendered(report, Format::Json, parts) == Ok::<_, RenderFailure>(
            parts.json@ + seq!['\n' as u8],
        ),
        ({
            let n = report.modules@.len() as int;
            let found = modules_rendered(report, Format::Csv, parts);
            &&& modules_recordable(report, parts.figures@, parts.columns@) ==> found == Ok::<
                _,
                RenderFailure,
            >(
                modules_records(
                    report,
                    all_figures_models(parts.figures@),
                    all_columns_models(parts.columns@),
                    parts.metric_json@,
                    parts.reference_json@,
                    n,
                ),
            )
            &&& !modules_recordable(report, parts.figures@, parts.columns@) ==> found == Err::<
                Seq<u8>,
                _,
            >(RenderFailure::Inventory)
        }),
        ({
            let found = modules_rendered(report, Format::Table, parts);
            let blocks = module_blocks(
                crate::modules::series_models(report.modules@),
                all_figures_models(parts.figures@),
                report.modules@.len() as int,
            );
            let fits = modules_showable(report.modules@, parts.figures@);
            &&& !fits ==> found == Err::<Seq<u8>, _>(RenderFailure::Unfit)
            &&& fits && report.test_exclusion is None ==> found == Ok::<_, RenderFailure>(
                encode_utf8("Erosion whole-module history\n\n"@ + blocks),
            )
            &&& fits && report.test_exclusion is Some ==> found == Ok::<_, RenderFailure>(
                encode_utf8("Erosion whole-module history (tests excluded)\n\n"@ + blocks),
            )
        }),
{
    assert('\n' as u8 == 10u8);
    assert(parts.json@.push(10u8) =~= parts.json@ + seq![10u8]);
    reveal_strlit("Erosion whole-module history");
    reveal_strlit("Erosion whole-module history\n\n");
    reveal_strlit("Erosion whole-module history (tests excluded)\n\n");
    reveal_strlit(" (tests excluded)");
    reveal_strlit("\n\n");
    reveal_strlit("");
    assert("Erosion whole-module history\n\n"@ =~= "Erosion whole-module history"@ + ""@
        + "\n\n"@);
    assert("Erosion whole-module history (tests excluded)\n\n"@
        =~= "Erosion whole-module history"@ + " (tests excluded)"@ + "\n\n"@);
}

/// The grouping of a report on modules is written as its kind, its depth and its
/// patterns.
pub proof fn groupings_are_written(config: ModuleConfigModel)
    ensures
        module_config_json(config) == "{\"kind\":"@ + crate::json::json_string(config.kind)
            + ",\"depth\":"@ + decimal(config.depth as nat) + ",\"globs\":"@
            + crate::json::json_list(config.globs) + "}"@,
{
}

} // verus!
