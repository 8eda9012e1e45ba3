//! Reports: snapshots in a series, with what they were measured by.
//!
//! A change is reported only between adjacent snapshots that both have a score;
//! it never reaches across a gap. Sources that could not be measured keep a
//! report from being given, unless an incomplete one is asked for.

use vstd::prelude::*;
use vstd::string::*;
use vstd::utf8::*;

use crate::analyzer::{effective_fingerprint, filtered_scope_json, Analyzer};
use crate::calendar::{instant_text, shown_instant};
use crate::config::{config_json, Config, ConfigModel, Scope};
use crate::digest::{
    digests_collide, fingerprints_differ_unless_digests_collide, text_fingerprint,
};
use crate::format::{count_text, debug_text, decimal, quoted, texts};
use crate::git::{Commit, EntryModel};
use crate::history::{checkpoint_models, CheckpointModel};
use crate::languages::policy::{exclusion_policy, TestExclusionPolicy};
use crate::languages::PARSER_VERSIONS;
use crate::metrics::{DiagnosticModel, ParseDiagnostic, COMPLEXITY_THRESHOLD, METRIC_VERSION};
use crate::scope_history::{
    categories_are_a_partition, changes_keep_the_counts, exclusion_moves_only_sources, has_status,
    snapshots_count, ScopeHistory,
};
use crate::snapshot::{snapshot_models, FailedFile, FailureModel, Snapshot, SnapshotModel};

verus! {

/// The series with its changes: a snapshot has one where it and the one right
/// before it have scores.
pub open spec fn compared(snapshots: Seq<SnapshotModel>) -> Seq<SnapshotModel> {
    Seq::new(
        snapshots.len(),
        |i: int|
            SnapshotModel {
                comparable: 0 < i && snapshots[i].measurable && snapshots[i - 1].measurable,
                ..snapshots[i]
            },
    )
}

/// Marks the changes in a series.
pub fn compare_snapshots(snapshots: Vec<Snapshot>) -> (series: Vec<Snapshot>)
    ensures
        snapshot_models(series@) == compared(snapshot_models(snapshots@)),
{
    let ghost before = snapshot_models(snapshots@);
    let mut series = snapshots;
    let mut k: usize = 0;
    while k < series.len()
        invariant
            k <= series@.len(),
            before.len() == series@.len(),
            forall|i: int|
                0 <= i < series@.len() ==> (#[trigger] series@[i])@ == if i < k {
                    compared(before)[i]
                } else {
                    before[i]
                },
        decreases series@.len() - k,
    {
        assert(series@[k as int]@ == before[k as int]);
        let comparable: bool = if k > 0 {
            assert(series@[k - 1]@ == compared(before)[k - 1]);
            series[k].measurable && series[k - 1].measurable
        } else {
            false
        };
        series[k].comparable = comparable;
        assert(series@[k as int]@ == compared(before)[k as int]);
        k = k + 1;
    }
    assert(snapshot_models(series@) =~= compared(before));
    series
}

/// A change is between neighbours that both have scores: the first snapshot has
/// none, and a snapshot without a score neither has one nor lends one to the next.
pub proof fn changes_never_reach_across_gaps(snapshots: Seq<SnapshotModel>, i: int)
    requires
        0 <= i < snapshots.len(),
    ensures
        compared(snapshots)[i].comparable <==> 0 < i && snapshots[i].measurable && snapshots[i
            - 1].measurable,
        !snapshots[i].measurable ==> !compared(snapshots)[i].comparable,
        !snapshots[i].measurable && i + 1 < snapshots.len() ==> !compared(snapshots)[i
            + 1].comparable,
        compared(snapshots)[i].measurable == snapshots[i].measurable,
        compared(snapshots)[i].coverage == snapshots[i].coverage,
{
}

/// What a report was measured by.
pub struct MetricIdentity {
    pub name: &'static str,
    pub version: &'static str,
    pub analyzer_fingerprint: String,
    pub parser_versions: &'static str,
    pub complexity_threshold: u64,
    pub formula: &'static str,
}

pub struct IdentityModel {
    pub name: Seq<char>,
    pub version: Seq<char>,
    pub analyzer_fingerprint: Seq<char>,
    pub parser_versions: Seq<char>,
    pub complexity_threshold: u64,
    pub formula: Seq<char>,
}

impl View for MetricIdentity {
    type V = IdentityModel;

    open spec fn view(&self) -> IdentityModel {
        IdentityModel {
            name: self.name@,
            version: self.version@,
            analyzer_fingerprint: self.analyzer_fingerprint@,
            parser_versions: self.parser_versions@,
            complexity_threshold: self.complexity_threshold,
            formula: self.formula@,
        }
    }
}

/// The metric as this library defines it.
pub open spec fn current_identity(fingerprint: Seq<char>) -> IdentityModel {
    IdentityModel {
        name: "erosion"@,
        version: METRIC_VERSION@,
        analyzer_fingerprint: fingerprint,
        parser_versions: PARSER_VERSIONS@,
        complexity_threshold: COMPLEXITY_THRESHOLD,
        formula: "100 * sum(CC * sqrt(SLOC) where CC > 10) / sum(CC * sqrt(SLOC))"@,
    }
}

impl MetricIdentity {
    /// The metric as this library defines it, by the analyzer of the given
    /// fingerprint.
    pub fn current(fingerprint: &str) -> (identity: Self)
        ensures
            identity@ == current_identity(fingerprint@),
    {
        MetricIdentity {
            name: "erosion",
            version: METRIC_VERSION,
            analyzer_fingerprint: fingerprint.to_owned(),
            parser_versions: PARSER_VERSIONS,
            complexity_threshold: COMPLEXITY_THRESHOLD,
            formula: "100 * sum(CC * sqrt(SLOC) where CC > 10) / sum(CC * sqrt(SLOC))",
        }
    }
}

/// The measurement of a scope at one or more checkpoints.
pub struct Report {
    pub schema_version: u32,
    pub tool_version: &'static str,
    pub mode: &'static str,
    pub reference: Commit,
    pub metric: MetricIdentity,
    pub scope: Config,
    pub scope_fingerprint: String,
    pub test_exclusion: Option<TestExclusionPolicy>,
    pub snapshots: Vec<Snapshot>,
}

/// The schema of a report on the paths in a scope.
pub open spec fn scope_schema(excludes: bool) -> u32 {
    if excludes {
        3
    } else {
        1
    }
}

/// A report holds one snapshot of every checkpoint, in order, with or without test
/// code.
pub open spec fn reports_scope(
    report: Report,
    excludes: bool,
    config: ConfigModel,
    checkpoints: Seq<CheckpointModel>,
    trees: Seq<Seq<EntryModel>>,
) -> bool {
    let snapshots = snapshot_models(report.snapshots@);
    &&& report.schema_version == scope_schema(excludes)
    &&& report.test_exclusion is Some <==> excludes
    &&& report.scope@ == config
    &&& report.scope_fingerprint@ == effective_fingerprint(
        text_fingerprint(config_json(config)),
        excludes,
    )
    &&& snapshots.len() == checkpoints.len()
    &&& snapshots_count(snapshots, checkpoints, trees, config, excludes)
}

/// Reports with and without test code on the same scope and entries are told apart by
/// their schema, and by their fingerprints but for a collision of digests. Each
/// snapshot stands for the same commit and tracks the same number of entries in both;
/// with test code left out, what is excluded more is test code.
pub proof fn filtered_reports_are_told_apart(
    plain: Report,
    filtered: Report,
    config: ConfigModel,
    checkpoints: Seq<CheckpointModel>,
    trees: Seq<Seq<EntryModel>>,
)
    requires
        reports_scope(plain, false, config, checkpoints, trees),
        reports_scope(filtered, true, config, checkpoints, trees),
    ensures
        plain.schema_version == 1,
        filtered.schema_version == 3,
        ({
            let json = config_json(config);
            let with_policy = filtered_scope_json(text_fingerprint(json));
            &&& json != with_policy
            &&& filtered.scope_fingerprint@ == plain.scope_fingerprint@ <==> digests_collide(
                encode_utf8(json),
                encode_utf8(with_policy),
            )
        }),
        filtered.snapshots@.len() == plain.snapshots@.len(),
        forall|i: int|
            0 <= i < checkpoints.len() ==> {
                let (a, b) = (
                    #[trigger] snapshot_models(plain.snapshots@)[i],
                    snapshot_models(filtered.snapshots@)[i],
                );
                &&& b.cutoff_utc == a.cutoff_utc
                &&& b.commit == a.commit
                &&& b.coverage.tracked_entries == a.coverage.tracked_entries
                &&& b.coverage.non_regular_entries == a.coverage.non_regular_entries
                &&& b.coverage.unsupported_files == a.coverage.unsupported_files
                &&& b.coverage.test_excluded_entries is Some
                &&& b.coverage.excluded_entries == a.coverage.excluded_entries
                    + b.coverage.test_excluded_entries->0
            },
{
    reveal_strlit("{\"include\":");
    reveal_strlit("[");
    let json = config_json(config);
    let with_policy = filtered_scope_json(text_fingerprint(json));
    assert(json[0] == '{');
    assert(with_policy[0] == '[');
    fingerprints_differ_unless_digests_collide(json, with_policy);
    let (first, second) = (snapshot_models(plain.snapshots@), snapshot_models(filtered.snapshots@));
    assert forall|i: int| 0 <= i < checkpoints.len() implies {
        let (a, b) = (#[trigger] first[i], second[i]);
        &&& b.cutoff_utc == a.cutoff_utc
        &&& b.commit == a.commit
        &&& b.coverage.tracked_entries == a.coverage.tracked_entries
        &&& b.coverage.non_regular_entries == a.coverage.non_regular_entries
        &&& b.coverage.unsupported_files == a.coverage.unsupported_files
        &&& b.coverage.test_excluded_entries is Some
        &&& b.coverage.excluded_entries == a.coverage.excluded_entries
            + b.coverage.test_excluded_entries->0
    } by {
        assert(has_status(first[i]) && has_status(second[i]));
        let n = trees[i].len() as int;
        categories_are_a_partition(trees[i], config, false, n);
        categories_are_a_partition(trees[i], config, true, n);
        exclusion_moves_only_sources(trees[i], config, n);
    }
}

impl Analyzer {
    /// The report of the paths in a scope through all checkpoints. Reports without test
    /// code have a schema of their own.
    pub fn report(
        &self,
        scope: &Scope,
        reference: Commit,
        history: ScopeHistory,
        mode: &'static str,
        tool_version: &'static str,
    ) -> (report: Report)
        requires
            scope.wf(),
            history.wf(scope.config@, self.leaves_out_tests()),
            history.snapshots@.len() == history.checkpoints@.len(),
        ensures
            reports_scope(
                report,
                self.leaves_out_tests(),
                scope.config@,
                checkpoint_models(history.checkpoints@),
                history.trees@,
            ),
            report.tool_version@ == tool_version@,
            report.mode@ == mode@,
            report.reference == reference,
            report.metric@ == current_identity(self.cache.fingerprint@),
            report.test_exclusion matches Some(policy) ==> policy@ == exclusion_policy(),
            snapshot_models(report.snapshots@) == compared(snapshot_models(history.snapshots@)),
    {
        proof {
            changes_keep_the_counts(
                snapshot_models(history.snapshots@),
                checkpoint_models(history.checkpoints@),
                history.trees@,
                scope.config@,
                self.leaves_out_tests(),
            );
        }
        let test_exclusion = self.test_exclusion();
        let schema_version: u32 = if test_exclusion.is_some() {
            3
        } else {
            1
        };
        Report {
            schema_version,
            tool_version,
            mode,
            reference,
            metric: MetricIdentity::current(self.cache.fingerprint.as_str()),
            scope: scope.config.clone(),
            scope_fingerprint: self.scope_fingerprint(scope.fingerprint.as_str()),
            test_exclusion,
            snapshots: compare_snapshots(history.snapshots),
        }
    }
}

/// The first line on a source that failed.
pub open spec fn failure_line(s: SnapshotModel, failure: FailureModel) -> Seq<char> {
    "Parse failure at "@ + shown_instant(s.cutoff_utc) + " ("@ + (match s.commit {
        Some(commit) => commit.sha,
        None => "no commit"@,
    }) + "): "@ + debug_text(failure.path) + " ("@ + decimal(failure.physical_lines as nat)
        + " physical lines)"@
}

/// The line on one place where a source is not valid.
pub open spec fn diagnostic_line(diagnostic: DiagnosticModel) -> Seq<char> {
    "  "@ + decimal(diagnostic.line as nat) + ":"@ + decimal(diagnostic.column as nat) + " "@
        + diagnostic.message
}

/// The lines on a source that failed.
pub open spec fn file_lines(s: SnapshotModel, failure: FailureModel) -> Seq<Seq<char>> {
    seq![failure_line(s, failure)] + failure.diagnostics.map_values(
        |d: DiagnosticModel| diagnostic_line(d),
    )
}

/// The lines on the first `n` sources of a snapshot that failed.
pub open spec fn snapshot_lines(s: SnapshotModel, n: int) -> Seq<Seq<char>>
    decreases n,
{
    if n <= 0 {
        Seq::empty()
    } else {
        snapshot_lines(s, n - 1) + file_lines(s, s.failures[n - 1])
    }
}

/// The lines on what failed in the first `n` snapshots.
pub open spec fn failure_lines(snapshots: Seq<SnapshotModel>, n: int) -> Seq<Seq<char>>
    decreases n,
{
    if n <= 0 {
        Seq::empty()
    } else {
        failure_lines(snapshots, n - 1) + snapshot_lines(
            snapshots[n - 1],
            snapshots[n - 1].failures.len() as int,
        )
    }
}

proof fn lemma_snapshot_lines(s: SnapshotModel, n: int, k: int)
    requires
        0 <= k < n,
    ensures
        snapshot_lines(s, n).contains(failure_line(s, s.failures[k])),
    decreases n,
{
    let before = snapshot_lines(s, n - 1);
    let last = file_lines(s, s.failures[n - 1]);
    let line = failure_line(s, s.failures[k]);
    if k == n - 1 {
        assert(last[0] == line);
        assert((before + last)[before.len() as int] == line);
    } else {
        lemma_snapshot_lines(s, n - 1, k);
        let at = choose|at: int| 0 <= at < before.len() && before[at] == line;
        assert((before + last)[at] == line);
    }
}

/// Every source that failed is reported, with the instant and the commit of its
/// snapshot, its path and its physical lines.
pub proof fn every_failure_is_reported(snapshots: Seq<SnapshotModel>, n: int, i: int, k: int)
    requires
        0 <= i < n <= snapshots.len(),
        0 <= k < snapshots[i].failures.len(),
    ensures
        failure_lines(snapshots, n).contains(failure_line(snapshots[i], snapshots[i].failures[k])),
    decreases n,
{
    let s = snapshots[n - 1];
    let before = failure_lines(snapshots, n - 1);
    let last = snapshot_lines(s, s.failures.len() as int);
    let line = failure_line(snapshots[i], snapshots[i].failures[k]);
    if i == n - 1 {
        lemma_snapshot_lines(s, s.failures.len() as int, k);
        let at = choose|at: int| 0 <= at < last.len() && last[at] == line;
        assert((before + last)[before.len() + at] == line);
    } else {
        every_failure_is_reported(snapshots, n - 1, i, k);
        let at = choose|at: int| 0 <= at < before.len() && before[at] == line;
        assert((before + last)[at] == line);
    }
}

/// How many sources failed in the first `n` snapshots.
pub open spec fn failure_count(snapshots: Seq<SnapshotModel>, n: int) -> nat
    decreases n,
{
    if n <= 0 {
        0
    } else {
        failure_count(snapshots, n - 1) + snapshots[n - 1].failures.len()
    }
}

/// What failed, in words, and how many sources that were.
pub struct Failures {
    pub lines: Vec<String>,
    pub failed: usize,
}

fn failure_text(snapshot: &Snapshot, failure: &FailedFile) -> (line: String)
    ensures
        line@ == failure_line(snapshot@, failure@),
{
    let mut line = "Parse failure at ".to_owned();
    let instant = instant_text(snapshot.cutoff_utc);
    line.append(instant.as_str());
    line.append(" (");
    match &snapshot.commit {
        Some(commit) => {
            line.append(commit.sha.as_str());
        },
        None => {
            line.append("no commit");
        },
    }
    line.append("): ");
    let path = quoted(failure.path.as_str());
    line.append(path.as_str());
    line.append(" (");
    let lines = count_text(failure.physical_lines);
    line.append(lines.as_str());
    line.append(" physical lines)");
    line
}

fn diagnostic_text(diagnostic: &ParseDiagnostic) -> (line: String)
    ensures
        line@ == diagnostic_line(diagnostic@),
{
    let mut line = "  ".to_owned();
    let row = count_text(diagnostic.line);
    line.append(row.as_str());
    line.append(":");
    let column = count_text(diagnostic.column);
    line.append(column.as_str());
    line.append(" ");
    line.append(diagnostic.message.as_str());
    line
}

impl Failures {
    /// Nothing failed yet.
    pub fn new() -> (failures: Self)
        ensures
            texts(failures.lines@) == Seq::<Seq<char>>::empty(),
            failures.failed == 0,
            failures.wf(),
    {
        let failures = Failures { lines: Vec::new(), failed: 0 };
        assert(texts(failures.lines@) =~= Seq::empty());
        failures
    }

    /// Every source that failed has a line.
    pub open spec fn wf(&self) -> bool {
        self.failed <= self.lines@.len()
    }

    fn add_file(&mut self, snapshot: &Snapshot, failure: &FailedFile)
        requires
            old(self).wf(),
        ensures
            final(self).wf(),
            final(self).failed == old(self).failed + 1,
            texts(final(self).lines@) == texts(old(self).lines@) + file_lines(
                snapshot@,
                failure@,
            ),
    {
        let ghost before = texts(self.lines@);
        let ghost shown = failure@.diagnostics.map_values(|d: DiagnosticModel| diagnostic_line(d));
        let line = failure_text(snapshot, failure);
        self.lines.push(line);
        let n: usize = self.lines.len();
        assert(self.failed < n);
        self.failed = self.failed + 1;
        assert(texts(self.lines@) =~= before + seq![failure_line(snapshot@, failure@)]);
        let ghost head = texts(self.lines@);
        assert(head + shown.subrange(0, 0) =~= head);
        let mut k: usize = 0;
        while k < failure.diagnostics.len()
            invariant
                k <= failure.diagnostics@.len(),
                shown == failure@.diagnostics.map_values(|d: DiagnosticModel| diagnostic_line(d)),
                shown.len() == failure.diagnostics@.len(),
                texts(self.lines@) == head + shown.subrange(0, k as int),
                self.failed == old(self).failed + 1,
                self.failed <= n <= self.lines@.len(),
            decreases failure.diagnostics@.len() - k,
        {
            let line = diagnostic_text(&failure.diagnostics[k]);
            assert(failure@.diagnostics[k as int] == failure.diagnostics@[k as int]@);
            assert(shown[k as int] == line@);
            let ghost known = texts(self.lines@);
            let ghost added = line@;
            self.lines.push(line);
            assert(texts(self.lines@) =~= known.push(added));
            assert(shown.subrange(0, k + 1) =~= shown.subrange(0, k as int).push(added));
            k = k + 1;
            assert(texts(self.lines@) =~= head + shown.subrange(0, k as int));
        }
        assert(shown.subrange(0, k as int) =~= shown);
        assert(texts(self.lines@) =~= before + file_lines(snapshot@, failure@));
    }

    /// Adds what failed in a snapshot.
    pub fn add(&mut self, snapshot: &Snapshot)
        requires
            old(self).wf(),
        ensures
            final(self).wf(),
            final(self).failed == old(self).failed + snapshot@.failures.len(),
            texts(final(self).lines@) == texts(old(self).lines@) + snapshot_lines(
                snapshot@,
                snapshot@.failures.len() as int,
            ),
    {
        let ghost before = texts(self.lines@);
        let ghost model = snapshot@;
        assert(model.failures.len() == snapshot.failures@.len());
        assert(before + snapshot_lines(model, 0) =~= before);
        let mut k: usize = 0;
        while k < snapshot.failures.len()
            invariant
                k <= snapshot.failures@.len(),
                model == snapshot@,
                model.failures.len() == snapshot.failures@.len(),
                self.wf(),
                self.failed == old(self).failed + k,
                texts(self.lines@) == before + snapshot_lines(model, k as int),
            decreases snapshot.failures@.len() - k,
        {
            assert(model.failures[k as int] == snapshot.failures@[k as int]@);
            self.add_file(snapshot, &snapshot.failures[k]);
            k = k + 1;
            assert(texts(self.lines@) =~= before + snapshot_lines(model, k as int));
        }
    }

    /// Adds what failed in a series.
    pub fn add_all(&mut self, snapshots: &Vec<Snapshot>)
        requires
            old(self).wf(),
        ensures
            final(self).wf(),
            final(self).failed == old(self).failed + failure_count(
                snapshot_models(snapshots@),
                snapshots@.len() as int,
            ),
            texts(final(self).lines@) == texts(old(self).lines@) + failure_lines(
                snapshot_models(snapshots@),
                snapshots@.len() as int,
            ),
    {
        let ghost before = texts(self.lines@);
        let ghost models = snapshot_models(snapshots@);
        assert(before + failure_lines(models, 0) =~= before);
        let mut k: usize = 0;
        while k < snapshots.len()
            invariant
                k <= snapshots@.len(),
                models == snapshot_models(snapshots@),
                self.wf(),
                self.failed == old(self).failed + failure_count(models, k as int),
                texts(self.lines@) == before + failure_lines(models, k as int),
            decreases snapshots@.len() - k,
        {
            assert(models[k as int] == snapshots@[k as int]@);
            self.add(&snapshots[k]);
            k = k + 1;
            assert(texts(self.lines@) =~= before + failure_lines(models, k as int));
        }
    }

    /// Refuses results when something failed, unless incomplete ones are asked
    /// for. The error is what to tell the user.
    pub fn check(&self, allow_partial: bool) -> (result: Result<(), String>)
        ensures
            match result {
                Ok(()) => self.failed == 0 || allow_partial,
                Err(message) => self.failed > 0 && !allow_partial && message@
                    == incomplete_message(self.failed as nat),
            },
    {
        if self.failed > 0 && !allow_partial {
            let mut message = count_text(self.failed);
            message.append(
                " file/checkpoint parse failures; no results emitted. Use --allow-partial to explicitly report incomplete measurements",
            );
            Err(message)
        } else {
            Ok(())
        }
    }
}

/// What to tell the user of results that are incomplete.
pub open spec fn incomplete_message(failed: nat) -> Seq<char> {
    decimal(failed)
        + " file/checkpoint parse failures; no results emitted. Use --allow-partial to explicitly report incomplete measurements"@
}

/// What failed in a report.
pub fn report_failures(report: &Report) -> (failures: Failures)
    ensures
        failures.wf(),
        texts(failures.lines@) == failure_lines(
            snapshot_models(report.snapshots@),
            report.snapshots@.len() as int,
        ),
        failures.failed == failure_count(
            snapshot_models(report.snapshots@),
            report.snapshots@.len() as int,
        ),
{
    let mut failures = Failures::new();
    failures.add_all(&report.snapshots);
    assert(Seq::<Seq<char>>::empty() + failure_lines(
        snapshot_models(report.snapshots@),
        report.snapshots@.len() as int,
    ) =~= failure_lines(snapshot_models(report.snapshots@), report.snapshots@.len() as int));
    failures
}

/// Refuses a report in which something failed, unless an incomplete one is asked
/// for.
pub fn require_complete(report: &Report, allow_partial: bool) -> (result: Result<(), String>)
    ensures
        ({
            let failed = failure_count(
                snapshot_models(report.snapshots@),
                report.snapshots@.len() as int,
            );
            match result {
                Ok(()) => failed == 0 || allow_partial,
                Err(message) => failed > 0 && !allow_partial && message@ == incomplete_message(
                    failed,
                ),
            }
        }),
{
    let failures = report_failures(report);
    failures.check(allow_partial)
}

} // verus!
