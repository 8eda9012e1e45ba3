//! The paths in a scope through all checkpoints.
//!
//! The entries of a checkpoint are taken up one after the other: outside the scope, not
//! measured, or a source. There is one snapshot of each checkpoint, in order.

use vstd::prelude::*;

use crate::analyzer::Analyzer;
use crate::config::{in_scope, ConfigModel, Scope};
use crate::git::{entry_models, EntryModel, TreeEntry};
use crate::history::{checkpoint_models, Checkpoint, CheckpointModel};
use crate::languages::Language;
use crate::metrics::{FileAnalysis, TestExclusionAnalysis};
use crate::report::compared;
use crate::snapshot::{
    counted_functions, empty_snapshot, entry_class, exclusion_model, finished, has_room, recorded,
    snapshot_models, sound, with_excluded, with_skipped, CountError, EntryClass, RecordError,
    Snapshot, SnapshotAccumulator, SnapshotModel, Status,
};

verus! {

/// What an entry is to the measurement, where it is in the scope.
pub open spec fn scope_class(entry: EntryModel, config: ConfigModel, excludes: bool) -> Option<
    EntryClass,
> {
    if in_scope(config, entry.path) {
        Some(entry_class(entry, excludes))
    } else {
        None
    }
}

/// What an entry is counted as.
#[derive(Clone, Copy, PartialEq, Eq, Structural)]
pub enum Category {
    OutOfScope,
    Test,
    NonRegular,
    Unsupported,
    Selected,
}

/// What an entry is counted as: exactly one category, whatever it is.
pub open spec fn category(entry: EntryModel, config: ConfigModel, excludes: bool) -> Category {
    match scope_class(entry, config, excludes) {
        None => Category::OutOfScope,
        Some(EntryClass::Test(_)) => Category::Test,
        Some(EntryClass::NonRegular) => Category::NonRegular,
        Some(EntryClass::Unsupported) => Category::Unsupported,
        Some(EntryClass::Source(_)) => Category::Selected,
    }
}

/// How many of the first `n` entries are counted as one category.
pub open spec fn category_count(
    entries: Seq<EntryModel>,
    config: ConfigModel,
    excludes: bool,
    which: Category,
    n: int,
) -> nat
    decreases n,
{
    if n <= 0 {
        0
    } else {
        category_count(entries, config, excludes, which, n - 1) + if category(
            entries[n - 1],
            config,
            excludes,
        ) == which {
            1nat
        } else {
            0
        }
    }
}

/// Every entry is counted as one category.
pub proof fn categories_are_a_partition(
    entries: Seq<EntryModel>,
    config: ConfigModel,
    excludes: bool,
    n: int,
)
    requires
        0 <= n <= entries.len(),
    ensures
        n == category_count(entries, config, excludes, Category::OutOfScope, n) + category_count(
            entries,
            config,
            excludes,
            Category::Test,
            n,
        ) + category_count(entries, config, excludes, Category::NonRegular, n) + category_count(
            entries,
            config,
            excludes,
            Category::Unsupported,
            n,
        ) + category_count(entries, config, excludes, Category::Selected, n),
        !excludes ==> category_count(entries, config, excludes, Category::Test, n) == 0,
    decreases n,
{
    if n > 0 {
        categories_are_a_partition(entries, config, excludes, n - 1);
    }
}

/// Leaving out test code moves sources to the test files and changes no other
/// category.
pub proof fn exclusion_moves_only_sources(entries: Seq<EntryModel>, config: ConfigModel, n: int)
    requires
        0 <= n <= entries.len(),
    ensures
        forall|which: Category|
            which !is Test && which !is Selected ==> #[trigger] category_count(
                entries,
                config,
                true,
                which,
                n,
            ) == category_count(entries, config, false, which, n),
        category_count(entries, config, false, Category::Selected, n) == category_count(
            entries,
            config,
            true,
            Category::Selected,
            n,
        ) + category_count(entries, config, true, Category::Test, n),
    decreases n,
{
    if n > 0 {
        exclusion_moves_only_sources(entries, config, n - 1);
        assert forall|which: Category| which !is Test && which !is Selected implies #[trigger]
            category_count(entries, config, true, which, n) == category_count(
            entries,
            config,
            false,
            which,
            n,
        ) by {
            assert(category_count(entries, config, true, which, n - 1) == category_count(
                entries,
                config,
                false,
                which,
                n - 1,
            ));
        }
    }
}

/// A snapshot counts the first `n` entries of a checkpoint, each as what it is.
pub open spec fn counts_entries(
    s: SnapshotModel,
    checkpoint: CheckpointModel,
    entries: Seq<EntryModel>,
    config: ConfigModel,
    excludes: bool,
    n: int,
) -> bool {
    let tests = category_count(entries, config, excludes, Category::Test, n);
    &&& sound(s)
    &&& s.cutoff_utc == checkpoint.cutoff
    &&& s.commit == checkpoint.commit
    &&& s.commit is None ==> entries.len() == 0
    &&& s.coverage.tracked_entries == n
    &&& s.coverage.excluded_entries == tests + category_count(
        entries,
        config,
        excludes,
        Category::OutOfScope,
        n,
    )
    &&& s.coverage.test_excluded_entries == if excludes {
        Some(tests as usize)
    } else {
        None
    }
    &&& s.coverage.non_regular_entries == category_count(
        entries,
        config,
        excludes,
        Category::NonRegular,
        n,
    )
    &&& s.coverage.unsupported_files == category_count(
        entries,
        config,
        excludes,
        Category::Unsupported,
        n,
    )
    &&& s.coverage.selected_files == category_count(
        entries,
        config,
        excludes,
        Category::Selected,
        n,
    )
}

/// The status is that of a snapshot with every entry in.
pub open spec fn has_status(s: SnapshotModel) -> bool {
    s.status == if s.commit is None {
        Status::NoCommit
    } else if s.coverage.failed_files > 0 {
        Status::Partial
    } else if !s.measurable {
        Status::NotMeasurable
    } else {
        Status::Complete
    }
}

/// One checkpoint while its entries come in.
pub struct ScopeCheckpoint {
    pub entries: Vec<TreeEntry>,
    /// The next entry.
    pub at: usize,
    pub accumulator: SnapshotAccumulator,
    pub excludes: bool,
}

/// What the next entry of a checkpoint comes to.
#[derive(Clone, Copy, Debug, PartialEq, Eq, Structural)]
pub enum ScopeStep {
    /// There is none.
    Done,
    /// It was counted.
    Counted,
    /// It is a source, and has to be analyzed.
    Measure { language: Language },
}

impl ScopeCheckpoint {
    pub open spec fn point(&self) -> CheckpointModel {
        CheckpointModel { cutoff: self.accumulator@.cutoff_utc, commit: self.accumulator@.commit }
    }

    /// The entries so far are counted.
    pub open spec fn wf(&self, config: ConfigModel) -> bool {
        &&& self.at <= self.entries@.len()
        &&& self.point().commit is None ==> self.accumulator@.status is NoCommit
        &&& counts_entries(
            self.accumulator@,
            self.point(),
            entry_models(self.entries@),
            config,
            self.excludes,
            self.at as int,
        )
    }

    /// A checkpoint before any entry. Without a commit there are none.
    pub fn new(
        scope: &Scope,
        checkpoint: &Checkpoint,
        entries: Vec<TreeEntry>,
        exclude_tests: bool,
    ) -> (result: Self)
        ensures
            result.wf(scope.config@),
            result.at == 0,
            result.excludes == exclude_tests,
            result.entries@ == if checkpoint.commit is Some {
                entries@
            } else {
                Seq::empty()
            },
            result.point() == checkpoint@,
            result.accumulator@ == empty_snapshot(checkpoint@, exclude_tests),
    {
        let entries: Vec<TreeEntry> = if checkpoint.commit.is_some() {
            entries
        } else {
            Vec::new()
        };
        ScopeCheckpoint {
            entries,
            at: 0,
            accumulator: SnapshotAccumulator::new(checkpoint, exclude_tests),
            excludes: exclude_tests,
        }
    }

    /// Takes up the next entry. One that is not measured is counted; a source in the
    /// scope is left to be analyzed.
    pub fn advance(&mut self, analyzer: &Analyzer, scope: &Scope) -> (step: ScopeStep)
        requires
            scope.wf(),
            old(self).wf(scope.config@),
            old(self).excludes == analyzer.leaves_out_tests(),
        ensures
            final(self).wf(scope.config@),
            final(self).entries == old(self).entries,
            final(self).excludes == old(self).excludes,
            final(self).point() == old(self).point(),
            match step {
                ScopeStep::Done => old(self).at == old(self).entries@.len() && *final(self)
                    == *old(self),
                ScopeStep::Measure { language } => {
                    let entry = old(self).entries@[old(self).at as int]@;
                    &&& old(self).at < old(self).entries@.len()
                    &&& *final(self) == *old(self)
                    &&& scope_class(entry, scope.config@, old(self).excludes) == Some(
                        EntryClass::Source(language),
                    )
                },
                ScopeStep::Counted => {
                    let entry = old(self).entries@[old(self).at as int]@;
                    let before = old(self).accumulator@;
                    &&& old(self).at < old(self).entries@.len()
                    &&& final(self).at == old(self).at + 1
                    &&& match scope_class(entry, scope.config@, old(self).excludes) {
                        None => final(self).accumulator@ == (SnapshotModel {
                            coverage: with_excluded(before.coverage),
                            ..before
                        }),
                        Some(class) => class !is Source && final(self).accumulator@ == (
                        SnapshotModel {
                            coverage: with_skipped(before.coverage, entry.path, class),
                            ..before
                        }),
                    }
                },
            },
    {
        if self.at >= self.entries.len() {
            return ScopeStep::Done;
        }
        let ghost entries = entry_models(self.entries@);
        let ghost at = self.at as int;
        assert(entries[at] == self.entries@[at]@);
        proof {
            categories_are_a_partition(entries, scope.config@, self.excludes, at);
        }
        match analyzer.enter_in_scope(scope, &mut self.accumulator, &self.entries[self.at]) {
            Some(language) => ScopeStep::Measure { language },
            None => {
                self.at = self.at + 1;
                ScopeStep::Counted
            },
        }
    }

    /// Adds the source that the next entry is.
    pub fn record(
        &mut self,
        scope: &Scope,
        language: Language,
        analysis: &FileAnalysis,
        exclusion: Option<&TestExclusionAnalysis>,
        ranks: &Vec<u64>,
        keep: bool,
    ) -> (result: Result<(), CountError>)
        requires
            old(self).wf(scope.config@),
            old(self).at < old(self).entries@.len(),
            scope_class(
                old(self).entries@[old(self).at as int]@,
                scope.config@,
                old(self).excludes,
            ) == Some(EntryClass::Source(language)),
            ranks@.len() == counted_functions(analysis@, exclusion_model(exclusion)).len(),
        ensures
            final(self).wf(scope.config@),
            final(self).entries == old(self).entries,
            final(self).excludes == old(self).excludes,
            final(self).point() == old(self).point(),
            result is Ok ==> final(self).at == old(self).at + 1,
            result is Err ==> final(self).at == old(self).at && final(self).accumulator@ == old(
                self,
            ).accumulator@,
            ({
                let before = old(self).accumulator@;
                let model = recorded(
                    before,
                    old(self).entries@[old(self).at as int]@.path,
                    language,
                    analysis@,
                    exclusion_model(exclusion),
                    ranks@,
                    keep,
                );
                match result {
                    Ok(()) => has_room(before, analysis@) && model == Ok::<
                        SnapshotModel,
                        RecordError,
                    >(final(self).accumulator@),
                    Err(CountError::TooMuchSource) => !has_room(before, analysis@),
                    Err(CountError::Record { error }) => has_room(before, analysis@) && model
                        == Err::<SnapshotModel, RecordError>(error),
                }
            }),
    {
        let ghost entries = entry_models(self.entries@);
        let ghost at = self.at as int;
        let count: usize = self.entries.len();
        assert(self.at < count);
        assert(entries[at] == self.entries@[at]@);
        proof {
            categories_are_a_partition(entries, scope.config@, self.excludes, at);
        }
        if !self.accumulator.room_for(analysis) {
            return Err(CountError::TooMuchSource);
        }
        match self.accumulator.record(
            self.entries[self.at].path.as_str(),
            language,
            analysis,
            exclusion,
            ranks,
            keep,
        ) {
            Ok(()) => {},
            Err(error) => {
                return Err(CountError::Record { error });
            },
        }
        self.at = self.at + 1;
        Ok(())
    }
}

/// There is one snapshot of each checkpoint that has a tree here, in order, and it
/// counts the entries of that tree.
pub open spec fn snapshots_count(
    snapshots: Seq<SnapshotModel>,
    checkpoints: Seq<CheckpointModel>,
    trees: Seq<Seq<EntryModel>>,
    config: ConfigModel,
    excludes: bool,
) -> bool {
    &&& snapshots.len() == trees.len() <= checkpoints.len()
    &&& forall|i: int|
        0 <= i < snapshots.len() ==> has_status(#[trigger] snapshots[i]) && counts_entries(
            snapshots[i],
            checkpoints[i],
            trees[i],
            config,
            excludes,
            trees[i].len() as int,
        )
}

/// What changed between checkpoints leaves the counts of entries as they are.
pub proof fn changes_keep_the_counts(
    snapshots: Seq<SnapshotModel>,
    checkpoints: Seq<CheckpointModel>,
    trees: Seq<Seq<EntryModel>>,
    config: ConfigModel,
    excludes: bool,
)
    requires
        snapshots_count(snapshots, checkpoints, trees, config, excludes),
    ensures
        snapshots_count(compared(snapshots), checkpoints, trees, config, excludes),
{
    let after = compared(snapshots);
    assert forall|i: int| 0 <= i < after.len() implies has_status(#[trigger] after[i])
        && counts_entries(
        after[i],
        checkpoints[i],
        trees[i],
        config,
        excludes,
        trees[i].len() as int,
    ) by {
        assert(has_status(snapshots[i]));
    }
}

/// The snapshots of the checkpoints so far.
pub struct ScopeHistory {
    pub checkpoints: Vec<Checkpoint>,
    pub snapshots: Vec<Snapshot>,
    /// The entries of the checkpoints so far.
    pub trees: Ghost<Seq<Seq<EntryModel>>>,
}

impl ScopeHistory {
    /// There is one snapshot of each checkpoint so far, in order.
    pub open spec fn wf(&self, config: ConfigModel, excludes: bool) -> bool {
        snapshots_count(
            snapshot_models(self.snapshots@),
            checkpoint_models(self.checkpoints@),
            self.trees@,
            config,
            excludes,
        )
    }

    /// The series before any snapshot.
    pub fn new(scope: &Scope, checkpoints: Vec<Checkpoint>, exclude_tests: bool) -> (history: Self)
        ensures
            history.wf(scope.config@, exclude_tests),
            history.checkpoints == checkpoints,
            history.snapshots@.len() == 0,
            history.trees@.len() == 0,
    {
        ScopeHistory { checkpoints, snapshots: Vec::new(), trees: Ghost(Seq::empty()) }
    }

    /// The next checkpoint.
    pub fn upcoming(&self) -> (checkpoint: Option<&Checkpoint>)
        ensures
            match checkpoint {
                Some(point) => self.snapshots@.len() < self.checkpoints@.len() && *point
                    == self.checkpoints@[self.snapshots@.len() as int],
                None => self.snapshots@.len() >= self.checkpoints@.len(),
            },
    {
        if self.snapshots.len() < self.checkpoints.len() {
            Some(&self.checkpoints[self.snapshots.len()])
        } else {
            None
        }
    }

    /// Adds the snapshot of the next checkpoint, when every entry of it is in.
    pub fn add(&mut self, scope: &Scope, done: ScopeCheckpoint, top: usize)
        requires
            old(self).wf(scope.config@, done.excludes),
            old(self).snapshots@.len() < old(self).checkpoints@.len(),
            done.wf(scope.config@),
            done.at == done.entries@.len(),
            done.point() == old(self).checkpoints@[old(self).snapshots@.len() as int]@,
        ensures
            final(self).wf(scope.config@, done.excludes),
            final(self).checkpoints == old(self).checkpoints,
            snapshot_models(final(self).snapshots@) == snapshot_models(old(self).snapshots@).push(
                finished(done.accumulator@, top),
            ),
            final(self).trees@ == old(self).trees@.push(entry_models(done.entries@)),
    {
        let ghost before = snapshot_models(self.snapshots@);
        let ghost points = checkpoint_models(self.checkpoints@);
        let ghost known = self.trees@;
        let ghost entries = entry_models(done.entries@);
        let snapshot = done.accumulator.finish(top);
        let ghost last = snapshot@;
        self.snapshots.push(snapshot);
        self.trees = Ghost(known.push(entries));
        proof {
            let after = snapshot_models(self.snapshots@);
            assert(after =~= before.push(last));
            assert forall|i: int| 0 <= i < after.len() implies has_status(#[trigger] after[i])
                && counts_entries(
                after[i],
                points[i],
                self.trees@[i],
                scope.config@,
                done.excludes,
                self.trees@[i].len() as int,
            ) by {
                if i < before.len() {
                    assert(has_status(before[i]));
                    assert(self.trees@[i] == known[i]);
                } else {
                    assert(points[i] == self.checkpoints@[i]@);
                }
            }
        }
    }
}

} // verus!
