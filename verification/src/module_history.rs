//! Modules through all checkpoints.
//!
//! The entries of a checkpoint are placed one after the other: above the depth, in a
//! module that is not selected, or in a selected one, whose snapshot counts it. So
//! the inventory of a checkpoint and the snapshots of its modules agree.

use vstd::prelude::*;

use crate::analyzer::Analyzer;
use crate::git::{commit_model, entry_models, EntryModel, TreeEntry};
use crate::history::{checkpoint_models, Checkpoint, CheckpointModel};
use crate::languages::Language;
use crate::metrics::{FileAnalysis, TestExclusionAnalysis};
use crate::modules::{
    compared_series, finish_module, inventory_is_a_partition, inventory_models, inventory_of,
    map_keys, module_count, module_finished, modules_count, selected_entries_stand_in_a_module,
    series_models, series_paths, stands_in, InventoryModel, ModuleInventory, ModuleSelection,
    ModuleSeries, Placement, SeriesModel,
};
use crate::ordered::{keys_ascend, OrderedMap};
use crate::snapshot::{
    copy_commit, counted_functions, empty_snapshot, entry_class, exclusion_model, has_room,
    recorded, snapshot_models, sound, with_skipped, CountError, EntryClass, RecordError,
    SnapshotAccumulator, SnapshotModel,
};
use crate::text::text_order_is_strict;

verus! {

/// One checkpoint of the selected modules while its entries come in.
pub struct ModuleCheckpoint {
    pub entries: Vec<TreeEntry>,
    /// The next entry.
    pub at: usize,
    pub counts: ModuleInventory,
    pub accumulators: Vec<SnapshotAccumulator>,
}

/// What the next entry of a checkpoint comes to.
#[derive(Clone, Copy, Debug, PartialEq, Eq, Structural)]
pub enum ModuleStep {
    /// There is none.
    Done,
    /// It was counted.
    Counted,
    /// It is a source of the module at a place in the order, and has to be analyzed.
    Measure { module: usize, language: Language },
}

/// The snapshot of a module holds its share of the first `n` entries.
pub open spec fn holds_share(
    s: SnapshotModel,
    checkpoint: CheckpointModel,
    entries: Seq<EntryModel>,
    depth: usize,
    modules: Seq<(Seq<char>, ())>,
    k: int,
    n: int,
) -> bool {
    &&& sound(s)
    &&& s.cutoff_utc == checkpoint.cutoff
    &&& s.commit == checkpoint.commit
    &&& s.coverage.tracked_entries == module_count(entries, depth, modules, k, n)
}

proof fn lemma_shares(
    entries: Seq<EntryModel>,
    depth: usize,
    modules: Seq<(Seq<char>, ())>,
    k: int,
    n: int,
)
    requires
        0 <= n,
    ensures
        module_count(entries, depth, modules, k, n) <= n,
    decreases n,
{
    if n > 0 {
        lemma_shares(entries, depth, modules, k, n - 1);
    }
}

/// An entry stands in one selected module at most.
proof fn lemma_one_module(
    path: Seq<char>,
    depth: usize,
    modules: Seq<(Seq<char>, ())>,
    a: int,
    b: int,
)
    requires
        keys_ascend(modules),
        stands_in(path, depth, modules, a),
        stands_in(path, depth, modules, b),
    ensures
        a == b,
{
    if a < b {
        text_order_is_strict(modules[a].0, modules[b].0, modules[a].0);
    } else if b < a {
        text_order_is_strict(modules[b].0, modules[a].0, modules[b].0);
    }
}

impl ModuleCheckpoint {
    pub open spec fn point(&self) -> CheckpointModel {
        CheckpointModel {
            cutoff: self.counts.cutoff_utc,
            commit: commit_model(self.counts.commit),
        }
    }

    /// The entries so far are counted, in the inventory and in the snapshots.
    pub open spec fn wf(&self, depth: usize, modules: Seq<(Seq<char>, ())>) -> bool {
        let entries = entry_models(self.entries@);
        &&& keys_ascend(modules)
        &&& self.at <= self.entries@.len()
        &&& self.counts.commit is None ==> self.entries@.len() == 0
        &&& self.counts@ == inventory_of(self.point(), entries, depth, modules, self.at as int)
        &&& self.accumulators@.len() == modules.len()
        &&& forall|k: int|
            0 <= k < modules.len() ==> holds_share(
                (#[trigger] self.accumulators@[k])@,
                self.point(),
                entries,
                depth,
                modules,
                k,
                self.at as int,
            )
    }

    /// A checkpoint before any entry. Without a commit there are none.
    pub fn new(
        selection: &ModuleSelection,
        modules: &OrderedMap<()>,
        checkpoint: &Checkpoint,
        entries: Vec<TreeEntry>,
        exclude_tests: bool,
    ) -> (result: Self)
        ensures
            result.wf(selection.config.depth, modules@),
            result.at == 0,
            result.entries@ == if checkpoint.commit is Some {
                entries@
            } else {
                Seq::empty()
            },
            result.point() == checkpoint@,
            forall|k: int|
                0 <= k < result.accumulators@.len() ==> (#[trigger] result.accumulators@[k])@
                    == empty_snapshot(checkpoint@, exclude_tests),
    {
        let count: usize = modules.len();
        let mut accumulators: Vec<SnapshotAccumulator> = Vec::new();
        let mut k: usize = 0;
        while k < count
            invariant
                k <= count,
                accumulators@.len() == k,
                forall|i: int|
                    0 <= i < k ==> (#[trigger] accumulators@[i])@ == empty_snapshot(
                        checkpoint@,
                        exclude_tests,
                    ) && sound(accumulators@[i]@),
            decreases count - k,
        {
            accumulators.push(SnapshotAccumulator::new(checkpoint, exclude_tests));
            k = k + 1;
        }
        let entries: Vec<TreeEntry> = if checkpoint.commit.is_some() {
            entries
        } else {
            Vec::new()
        };
        let counts = ModuleInventory {
            cutoff_utc: checkpoint.cutoff,
            commit: copy_commit(&checkpoint.commit),
            tracked_entries: 0,
            outside_depth_entries: 0,
            unselected_module_entries: 0,
            selected_module_entries: 0,
        };
        ModuleCheckpoint { entries, at: 0, counts, accumulators }
    }

    /// Takes up the next entry. One that is not measured is counted; a source is left
    /// to be analyzed.
    pub fn advance(
        &mut self,
        analyzer: &Analyzer,
        selection: &ModuleSelection,
        modules: &OrderedMap<()>,
    ) -> (step: ModuleStep)
        requires
            selection.wf(),
            old(self).wf(selection.config.depth, modules@),
        ensures
            final(self).wf(selection.config.depth, modules@),
            final(self).entries == old(self).entries,
            final(self).point() == old(self).point(),
            match step {
                ModuleStep::Done => old(self).at == old(self).entries@.len() && *final(self)
                    == *old(self),
                ModuleStep::Measure { module, language } => {
                    let entry = old(self).entries@[old(self).at as int]@;
                    &&& old(self).at < old(self).entries@.len()
                    &&& *final(self) == *old(self)
                    &&& stands_in(entry.path, selection.config.depth, modules@, module as int)
                    &&& entry_class(entry, analyzer.leaves_out_tests()) == EntryClass::Source(
                        language,
                    )
                },
                ModuleStep::Counted => {
                    let entry = old(self).entries@[old(self).at as int]@;
                    let class = entry_class(entry, analyzer.leaves_out_tests());
                    &&& old(self).at < old(self).entries@.len()
                    &&& final(self).at == old(self).at + 1
                    &&& forall|k: int|
                        0 <= k < modules@.len() ==> (#[trigger] final(self).accumulators@[k])@
                            == if stands_in(entry.path, selection.config.depth, modules@, k) {
                            SnapshotModel {
                                coverage: with_skipped(
                                    old(self).accumulators@[k]@.coverage,
                                    entry.path,
                                    class,
                                ),
                                ..old(self).accumulators@[k]@
                            }
                        } else {
                            old(self).accumulators@[k]@
                        }
                    &&& class is Source ==> forall|k: int|
                        0 <= k < modules@.len() ==> !#[trigger] stands_in(
                            entry.path,
                            selection.config.depth,
                            modules@,
                            k,
                        )
                },
            },
    {
        let ghost depth = selection.config.depth;
        let ghost entries = entry_models(self.entries@);
        let ghost at = self.at as int;
        if self.at >= self.entries.len() {
            return ModuleStep::Done;
        }
        assert(entries[at] == self.entries@[at]@);
        let ghost path = entries[at].path;
        proof {
            inventory_is_a_partition(entries, depth, modules@, at);
            inventory_is_a_partition(entries, depth, modules@, at + 1);
        }
        match selection.place(modules, self.entries[self.at].path.as_str()) {
            Placement::Outside => {
                self.counts.outside_depth_entries = self.counts.outside_depth_entries + 1;
            },
            Placement::Unselected => {
                proof {
                    selected_entries_stand_in_a_module(path, depth, modules@);
                }
                self.counts.unselected_module_entries = self.counts.unselected_module_entries + 1;
            },
            Placement::Selected(module) => {
                assert(holds_share(
                    self.accumulators@[module as int]@,
                    self.point(),
                    entries,
                    depth,
                    modules@,
                    module as int,
                    at,
                ));
                proof {
                    lemma_shares(entries, depth, modules@, module as int, at);
                    assert forall|k: int|
                        0 <= k < modules@.len() && #[trigger] stands_in(
                            path,
                            depth,
                            modules@,
                            k,
                        ) implies k == module by {
                        lemma_one_module(path, depth, modules@, module as int, k);
                    }
                }
                match analyzer.classify(&self.entries[self.at]) {
                    EntryClass::Source(language) => {
                        return ModuleStep::Measure { module, language };
                    },
                    class => {
                        self.accumulators[module].skip(&self.entries[self.at], class);
                    },
                }
                self.counts.selected_module_entries = self.counts.selected_module_entries + 1;
            },
        }
        self.counts.tracked_entries = self.counts.tracked_entries + 1;
        self.at = self.at + 1;
        ModuleStep::Counted
    }

    /// Adds the source that the next entry is, in the module that it stands in.
    pub fn record(
        &mut self,
        selection: &ModuleSelection,
        modules: &OrderedMap<()>,
        module: usize,
        language: Language,
        analysis: &FileAnalysis,
        exclusion: Option<&TestExclusionAnalysis>,
        ranks: &Vec<u64>,
    ) -> (result: Result<(), CountError>)
        requires
            old(self).wf(selection.config.depth, modules@),
            old(self).at < old(self).entries@.len(),
            stands_in(
                old(self).entries@[old(self).at as int]@.path,
                selection.config.depth,
                modules@,
                module as int,
            ),
            ranks@.len() == counted_functions(analysis@, exclusion_model(exclusion)).len(),
        ensures
            final(self).wf(selection.config.depth, modules@),
            final(self).entries == old(self).entries,
            final(self).point() == old(self).point(),
            result is Ok ==> final(self).at == old(self).at + 1,
            result is Err ==> final(self).at == old(self).at,
            forall|k: int|
                0 <= k < modules@.len() && (k != module || result is Err) ==> (
                #[trigger] final(self).accumulators@[k])@ == old(self).accumulators@[k]@,
            ({
                let before = old(self).accumulators@[module as int]@;
                let model = recorded(
                    before,
                    old(self).entries@[old(self).at as int]@.path,
                    language,
                    analysis@,
                    exclusion_model(exclusion),
                    ranks@,
                    false,
                );
                match result {
                    Ok(()) => has_room(before, analysis@) && model == Ok::<
                        SnapshotModel,
                        RecordError,
                    >(final(self).accumulators@[module as int]@),
                    Err(CountError::TooMuchSource) => !has_room(before, analysis@),
                    Err(CountError::Record { error }) => has_room(before, analysis@) && model
                        == Err::<SnapshotModel, RecordError>(error),
                }
            }),
    {
        let ghost depth = selection.config.depth;
        let ghost entries = entry_models(self.entries@);
        let ghost at = self.at as int;
        let ghost path = entries[at].path;
        let count: usize = self.entries.len();
        assert(self.at < count);
        assert(entries[at] == self.entries@[at]@);
        proof {
            inventory_is_a_partition(entries, depth, modules@, at);
            inventory_is_a_partition(entries, depth, modules@, at + 1);
            selected_entries_stand_in_a_module(path, depth, modules@);
            lemma_shares(entries, depth, modules@, module as int, at);
            assert forall|k: int|
                0 <= k < modules@.len() && #[trigger] stands_in(
                    path,
                    depth,
                    modules@,
                    k,
                ) implies k == module by {
                lemma_one_module(path, depth, modules@, module as int, k);
            }
        }
        assert(holds_share(
            self.accumulators@[module as int]@,
            self.point(),
            entries,
            depth,
            modules@,
            module as int,
            at,
        ));
        if !self.accumulators[module].room_for(analysis) {
            return Err(CountError::TooMuchSource);
        }
        match self.accumulators[module].record(
            self.entries[self.at].path.as_str(),
            language,
            analysis,
            exclusion,
            ranks,
            false,
        ) {
            Ok(()) => {},
            Err(error) => {
                return Err(CountError::Record { error });
            },
        }
        self.counts.selected_module_entries = self.counts.selected_module_entries + 1;
        self.counts.tracked_entries = self.counts.tracked_entries + 1;
        self.at = self.at + 1;
        Ok(())
    }
}

/// Where the entries of a checkpoint stand is the same with and without test code,
/// whatever their sources come to.
pub proof fn inventories_count_test_code_too(
    a: ModuleCheckpoint,
    b: ModuleCheckpoint,
    depth: usize,
    modules: Seq<(Seq<char>, ())>,
)
    requires
        a.wf(depth, modules),
        b.wf(depth, modules),
        a.point() == b.point(),
        entry_models(a.entries@) == entry_models(b.entries@),
        a.at == b.at,
    ensures
        a.counts@ == b.counts@,
        a.accumulators@.len() == b.accumulators@.len(),
        forall|k: int|
            0 <= k < modules.len() ==> (#[trigger] a.accumulators@[k])@.coverage.tracked_entries
                == b.accumulators@[k]@.coverage.tracked_entries,
{
    let entries = entry_models(a.entries@);
    assert forall|k: int| 0 <= k < modules.len() implies (
    #[trigger] a.accumulators@[k])@.coverage.tracked_entries
        == b.accumulators@[k]@.coverage.tracked_entries by {
        assert(holds_share(a.accumulators@[k]@, a.point(), entries, depth, modules, k, a.at as int));
        assert(holds_share(b.accumulators@[k]@, b.point(), entries, depth, modules, k, a.at as int));
    }
}

/// The entries of the first `m` modules at a checkpoint, added up.
pub open spec fn tracked_at(series: Seq<SeriesModel>, i: int, m: int) -> nat
    decreases m,
{
    if m <= 0 {
        0
    } else {
        tracked_at(series, i, m - 1) + series[m - 1].snapshots[i].coverage.tracked_entries as nat
    }
}

/// The inventory of a checkpoint counts every entry once, and those in selected
/// modules as the modules' own snapshots of it do. Without a commit there are none.
pub open spec fn balanced_at(
    series: Seq<SeriesModel>,
    inventory: Seq<InventoryModel>,
    i: int,
) -> bool {
    let counts = inventory[i];
    &&& counts.tracked_entries == counts.outside_depth_entries + counts.unselected_module_entries
        + counts.selected_module_entries
    &&& counts.selected_module_entries == tracked_at(series, i, series.len() as int)
    &&& counts.commit is None ==> counts.tracked_entries == 0
    &&& forall|k: int|
        0 <= k < series.len() ==> {
            &&& (#[trigger] series[k]).snapshots[i].cutoff_utc == counts.cutoff_utc
            &&& series[k].snapshots[i].commit == counts.commit
        }
}

/// Every module has a snapshot of every checkpoint of the inventory, and they agree.
pub open spec fn history_balanced(series: Seq<SeriesModel>, inventory: Seq<InventoryModel>) -> bool {
    &&& forall|k: int|
        0 <= k < series.len() ==> (#[trigger] series[k]).snapshots.len() == inventory.len()
    &&& forall|i: int| 0 <= i < inventory.len() ==> #[trigger] balanced_at(series, inventory, i)
}

proof fn lemma_tracked_same(a: Seq<SeriesModel>, b: Seq<SeriesModel>, i: int, m: int)
    requires
        m <= a.len(),
        m <= b.len(),
        forall|k: int|
            0 <= k < m ==> (#[trigger] a[k]).snapshots[i].coverage.tracked_entries
                == b[k].snapshots[i].coverage.tracked_entries,
    ensures
        tracked_at(a, i, m) == tracked_at(b, i, m),
    decreases m,
{
    if m > 0 {
        lemma_tracked_same(a, b, i, m - 1);
        assert(a[m - 1].snapshots[i].coverage.tracked_entries
            == b[m - 1].snapshots[i].coverage.tracked_entries);
    }
}

proof fn lemma_tracked_shares(
    series: Seq<SeriesModel>,
    i: int,
    entries: Seq<EntryModel>,
    depth: usize,
    modules: Seq<(Seq<char>, ())>,
    m: int,
    n: int,
)
    requires
        m <= series.len(),
        forall|k: int|
            0 <= k < m ==> (#[trigger] series[k]).snapshots[i].coverage.tracked_entries
                == module_count(entries, depth, modules, k, n),
    ensures
        tracked_at(series, i, m) == modules_count(entries, depth, modules, m, n),
    decreases m,
{
    if m > 0 {
        lemma_tracked_shares(series, i, entries, depth, modules, m - 1, n);
        assert(series[m - 1].snapshots[i].coverage.tracked_entries == module_count(
            entries,
            depth,
            modules,
            m - 1,
            n,
        ));
    }
}

/// What changed between checkpoints leaves the counts of entries as they are.
pub proof fn changes_keep_the_balance(series: Seq<SeriesModel>, inventory: Seq<InventoryModel>)
    requires
        history_balanced(series, inventory),
    ensures
        history_balanced(compared_series(series), inventory),
{
    let after = compared_series(series);
    assert forall|k: int| 0 <= k < after.len() implies (#[trigger] after[k]).snapshots.len()
        == inventory.len() by {
        assert(series[k].snapshots.len() == inventory.len());
    }
    assert forall|i: int| 0 <= i < inventory.len() implies #[trigger] balanced_at(
        after,
        inventory,
        i,
    ) by {
        assert(balanced_at(series, inventory, i));
        assert forall|k: int| 0 <= k < series.len() implies {
            &&& (#[trigger] after[k]).snapshots[i].cutoff_utc == series[k].snapshots[i].cutoff_utc
            &&& after[k].snapshots[i].commit == series[k].snapshots[i].commit
            &&& after[k].snapshots[i].coverage == series[k].snapshots[i].coverage
        } by {
            assert(series[k].snapshots.len() == inventory.len());
        }
        lemma_tracked_same(after, series, i, series.len() as int);
    }
}

/// Selected modules through the checkpoints so far.
pub struct ModuleHistory {
    pub checkpoints: Vec<Checkpoint>,
    pub series: Vec<ModuleSeries>,
    pub inventory: Vec<ModuleInventory>,
    /// The entries of the checkpoints so far.
    pub trees: Ghost<Seq<Seq<EntryModel>>>,
}

/// Where the entries of the checkpoints stand, each checkpoint with its own.
pub open spec fn inventories(
    checkpoints: Seq<CheckpointModel>,
    trees: Seq<Seq<EntryModel>>,
    depth: usize,
    modules: Seq<(Seq<char>, ())>,
) -> Seq<InventoryModel> {
    Seq::new(
        trees.len(),
        |i: int| inventory_of(checkpoints[i], trees[i], depth, modules, trees[i].len() as int),
    )
}

/// The snapshots of each module count its own entries of every checkpoint.
pub open spec fn shares_counted(
    series: Seq<SeriesModel>,
    trees: Seq<Seq<EntryModel>>,
    depth: usize,
    modules: Seq<(Seq<char>, ())>,
) -> bool {
    forall|k: int, i: int|
        0 <= k < series.len() && 0 <= i < trees.len() ==> (
        #[trigger] series[k].snapshots[i]).coverage.tracked_entries == module_count(
            trees[i],
            depth,
            modules,
            k,
            trees[i].len() as int,
        )
}

impl ModuleHistory {
    /// There is a series of every module, in order, the entries of each checkpoint so
    /// far are counted, and each is in balance.
    pub open spec fn wf(&self, depth: usize, modules: Seq<(Seq<char>, ())>) -> bool {
        &&& modules.len() > 0
        &&& keys_ascend(modules)
        &&& series_paths(series_models(self.series@)) == map_keys(modules)
        &&& self.inventory@.len() <= self.checkpoints@.len()
        &&& inventory_models(self.inventory@) == inventories(
            checkpoint_models(self.checkpoints@),
            self.trees@,
            depth,
            modules,
        )
        &&& shares_counted(series_models(self.series@), self.trees@, depth, modules)
        &&& history_balanced(series_models(self.series@), inventory_models(self.inventory@))
    }

    /// The modules before any checkpoint.
    pub fn new(
        selection: &ModuleSelection,
        modules: &OrderedMap<()>,
        checkpoints: Vec<Checkpoint>,
    ) -> (history: Self)
        requires
            modules@.len() > 0,
        ensures
            history.wf(selection.config.depth, modules@),
            history.checkpoints == checkpoints,
            history.trees@.len() == 0,
    {
        let count: usize = modules.len();
        let mut series: Vec<ModuleSeries> = Vec::new();
        let mut k: usize = 0;
        while k < count
            invariant
                count == modules@.len(),
                k <= count,
                series@.len() == k,
                forall|i: int|
                    0 <= i < k ==> (#[trigger] series@[i]).path@ == modules@[i].0
                        && series@[i].snapshots@.len() == 0,
            decreases count - k,
        {
            series.push(ModuleSeries { path: modules.key(k).to_owned(), snapshots: Vec::new() });
            k = k + 1;
        }
        assert(series_paths(series_models(series@)) =~= map_keys(modules@));
        let inventory: Vec<ModuleInventory> = Vec::new();
        let trees: Ghost<Seq<Seq<EntryModel>>> = Ghost(Seq::empty());
        assert(inventory_models(inventory@) =~= inventories(
            checkpoint_models(checkpoints@),
            trees@,
            selection.config.depth,
            modules@,
        ));
        ModuleHistory { checkpoints, series, inventory, trees }
    }

    /// The next checkpoint.
    pub fn upcoming(&self) -> (checkpoint: Option<&Checkpoint>)
        ensures
            match checkpoint {
                Some(point) => self.inventory@.len() < self.checkpoints@.len() && *point
                    == self.checkpoints@[self.inventory@.len() as int],
                None => self.inventory@.len() >= self.checkpoints@.len(),
            },
    {
        if self.inventory.len() < self.checkpoints.len() {
            Some(&self.checkpoints[self.inventory.len()])
        } else {
            None
        }
    }

    /// Adds the next checkpoint, when every entry of it is in.
    pub fn add(
        &mut self,
        selection: &ModuleSelection,
        modules: &OrderedMap<()>,
        done: ModuleCheckpoint,
    )
        requires
            old(self).wf(selection.config.depth, modules@),
            old(self).inventory@.len() < old(self).checkpoints@.len(),
            done.wf(selection.config.depth, modules@),
            done.at == done.entries@.len(),
            done.point() == old(self).checkpoints@[old(self).inventory@.len() as int]@,
        ensures
            final(self).wf(selection.config.depth, modules@),
            final(self).checkpoints == old(self).checkpoints,
            final(self).inventory@ == old(self).inventory@.push(done.counts),
            final(self).trees@ == old(self).trees@.push(entry_models(done.entries@)),
            forall|k: int|
                0 <= k < modules@.len() ==> (#[trigger] final(self).series@[k])@ == (SeriesModel {
                    path: old(self).series@[k]@.path,
                    snapshots: old(self).series@[k]@.snapshots.push(
                        module_finished(done.accumulators@[k]@),
                    ),
                }),
    {
        let ghost before = series_models(self.series@);
        let ghost listed = inventory_models(self.inventory@);
        let ghost accumulators = done.accumulators@;
        let ghost entries = entry_models(done.entries@);
        let ghost depth = selection.config.depth;
        let ghost n = done.at as int;
        let ghost m = modules@.len() as int;
        let ghost earlier = self.inventory@;
        let ghost known = self.trees@;
        assert(before.len() == series_paths(before).len());
        let mut rest = done.accumulators;
        while rest.len() > 0
            invariant
                m == before.len(),
                m == accumulators.len(),
                self.series@.len() == m,
                self.inventory@ == earlier,
                self.trees@ == known,
                self.checkpoints == old(self).checkpoints,
                rest@.len() <= m,
                rest@ == accumulators.subrange(0, rest@.len() as int),
                forall|k: int|
                    0 <= k < rest@.len() ==> (#[trigger] self.series@[k])@ == before[k],
                forall|k: int|
                    rest@.len() <= k < m ==> (#[trigger] self.series@[k])@ == (SeriesModel {
                        path: before[k].path,
                        snapshots: before[k].snapshots.push(module_finished(accumulators[k]@)),
                    }),
            decreases rest@.len(),
        {
            let last: usize = rest.len() - 1;
            assert(self.series@[last as int]@ == before[last as int]);
            match rest.pop() {
                Some(accumulator) => {
                    assert(accumulator == accumulators[last as int]);
                    let snapshot = finish_module(accumulator);
                    let ghost one = self.series@[last as int];
                    self.series[last].snapshots.push(snapshot);
                    assert(snapshot_models(self.series@[last as int].snapshots@) =~= snapshot_models(
                        one.snapshots@,
                    ).push(snapshot@));
                },
                None => {},
            }
            assert(rest@ =~= accumulators.subrange(0, rest@.len() as int));
        }
        self.inventory.push(done.counts);
        self.trees = Ghost(known.push(entries));
        proof {
            assert(listed.len() == known.len());
            let after = series_models(self.series@);
            let counts = inventory_models(self.inventory@);
            let at = listed.len() as int;
            assert(series_paths(after) =~= series_paths(before));
            assert(counts =~= listed.push(done.counts@));
            assert(counts =~= inventories(
                checkpoint_models(self.checkpoints@),
                self.trees@,
                depth,
                modules@,
            )) by {
                let points = checkpoint_models(self.checkpoints@);
                let all = inventories(points, self.trees@, depth, modules@);
                assert forall|i: int| 0 <= i < counts.len() implies counts[i] == all[i] by {
                    if i < at {
                        assert(listed[i] == inventories(points, known, depth, modules@)[i]);
                    } else {
                        assert(points[at] == self.checkpoints@[at]@);
                    }
                }
            }
            assert forall|k: int| 0 <= k < m implies (#[trigger] after[k]).snapshots
                == before[k].snapshots.push(module_finished(accumulators[k]@))
                && before[k].snapshots.len() == at by {
                assert(self.series@[k]@ == after[k]);
            }
            inventory_is_a_partition(entries, depth, modules@, n);
            assert forall|k: int| 0 <= k < m implies {
                &&& (#[trigger] after[k]).snapshots[at].coverage.tracked_entries == module_count(
                    entries,
                    depth,
                    modules@,
                    k,
                    n,
                )
                &&& after[k].snapshots[at].cutoff_utc == counts[at].cutoff_utc
                &&& after[k].snapshots[at].commit == counts[at].commit
            } by {
                assert(holds_share(accumulators[k]@, done.point(), entries, depth, modules@, k, n));
            }
            assert(shares_counted(after, self.trees@, depth, modules@)) by {
                assert forall|k: int, i: int|
                    0 <= k < after.len() && 0 <= i < self.trees@.len() implies (
                #[trigger] after[k].snapshots[i]).coverage.tracked_entries == module_count(
                    self.trees@[i],
                    depth,
                    modules@,
                    k,
                    self.trees@[i].len() as int,
                ) by {
                    assert(after[k].snapshots == before[k].snapshots.push(
                        module_finished(accumulators[k]@),
                    ));
                    if i < at {
                        assert(after[k].snapshots[i] == before[k].snapshots[i]);
                        assert(self.trees@[i] == known[i]);
                    } else {
                        assert(self.trees@[i] == entries);
                    }
                }
            }
            lemma_tracked_shares(after, at, entries, depth, modules@, m, n);
            assert(balanced_at(after, counts, at));
            assert forall|i: int| 0 <= i < counts.len() implies #[trigger] balanced_at(
                after,
                counts,
                i,
            ) by {
                if i < at {
                    assert(balanced_at(before, listed, i));
                    assert(counts[i] == listed[i]);
                    assert forall|k: int| 0 <= k < m implies (#[trigger] after[k]).snapshots[i]
                        == before[k].snapshots[i] by {}
                    lemma_tracked_same(after, before, i, m);
                }
            }
        }
    }
}

} // verus!
