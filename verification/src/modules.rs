//! Modules: directories at one depth below the root of a repository, each
//! measured with everything in it.
//!
//! Modules are found by the entries below them, in every sampled commit. Patterns
//! select modules by their paths and never files inside them. An entry lies above
//! the depth, in a module that is not selected, or in a selected one.

use vstd::prelude::*;
use vstd::string::*;
use vstd::utf8::*;

use crate::analyzer::{effective_fingerprint, filtered_scope_json, Analyzer};
use crate::digest::{
    digests_collide, fingerprints_differ_unless_digests_collide, is_fingerprint, text_fingerprint,
    text_fingerprint_of,
};
use crate::format::{count_text, debug_text, decimal, join, joined, quoted, texts};
use crate::git::{commit_model, entry_models, Commit, CommitModel, EntryModel, TreeEntry};
use crate::globs::{
    compile, compiled, compiled_sets_hold_their_patterns, glob_message, globs_of, matches_any,
    set_globs, set_matches, GlobError, GlobFailure,
};
use crate::history::{checkpoint_models, CheckpointModel};
use crate::json::{json_list, json_list_text, json_string, json_string_text};
use crate::languages::policy::{exclusion_policy, TestExclusionPolicy};
use crate::module_history::{
    changes_keep_the_balance, history_balanced, inventories, shares_counted, ModuleHistory,
};
use crate::ordered::{keys_ascend, lookup, put, put_and_lookup, OrderedMap};
use crate::report::{
    compare_snapshots, compared, current_identity, failure_count, failure_lines,
    incomplete_message, Failures, MetricIdentity,
};
use crate::snapshot::{
    finished, snapshot_models, sound, Snapshot, SnapshotAccumulator, SnapshotModel, Status,
};
use crate::text::{find_char, position_of, text_less, text_order_is_strict};

verus! {

/// How modules are grouped and selected.
#[derive(Debug)]
pub struct ModuleConfig {
    pub kind: &'static str,
    pub depth: usize,
    pub globs: Vec<String>,
}

#[verifier::ext_equal]
pub struct ModuleConfigModel {
    pub kind: Seq<char>,
    pub depth: usize,
    pub globs: Seq<Seq<char>>,
}

impl View for ModuleConfig {
    type V = ModuleConfigModel;

    open spec fn view(&self) -> ModuleConfigModel {
        ModuleConfigModel { kind: self.kind@, depth: self.depth, globs: texts(self.globs@) }
    }
}

impl Clone for ModuleConfig {
    fn clone(&self) -> (copy: Self)
        ensures
            copy@ == self@,
    {
        ModuleConfig {
            kind: self.kind,
            depth: self.depth,
            globs: crate::config::copy_texts(&self.globs),
        }
    }
}

/// The grouping as a JSON object.
pub open spec fn module_config_json(config: ModuleConfigModel) -> Seq<char> {
    "{\"kind\":"@ + json_string(config.kind) + ",\"depth\":"@ + decimal(config.depth as nat)
        + ",\"globs\":"@ + json_list(config.globs) + "}"@
}

impl ModuleConfig {
    /// The grouping as a JSON object.
    pub fn json(&self) -> (json: String)
        ensures
            json@ == module_config_json(self@),
    {
        let mut json = "{\"kind\":".to_owned();
        let kind = json_string_text(self.kind);
        json.append(kind.as_str());
        json.append(",\"depth\":");
        let depth = count_text(self.depth);
        json.append(depth.as_str());
        json.append(",\"globs\":");
        let globs = json_list_text(&self.globs);
        json.append(globs.as_str());
        json.append("}");
        json
    }
}

/// Why no modules can be measured.
#[derive(Debug)]
pub enum ModuleError {
    /// The root is no module.
    ZeroDepth,
    /// A pattern is not valid.
    Globs { error: GlobError },
    /// No module is selected.
    NoMatch { depth: usize, globs: Vec<String> },
}

/// Why no modules can be measured, as specifications speak of it.
pub enum ModuleFailure {
    ZeroDepth,
    Globs { failure: GlobFailure },
    NoMatch { depth: usize, patterns: Seq<Seq<char>> },
}

impl View for ModuleError {
    type V = ModuleFailure;

    open spec fn view(&self) -> ModuleFailure {
        match self {
            ModuleError::ZeroDepth => ModuleFailure::ZeroDepth,
            ModuleError::Globs { error } => ModuleFailure::Globs { failure: error@ },
            ModuleError::NoMatch { depth, globs } => ModuleFailure::NoMatch {
                depth: *depth,
                patterns: texts(globs@),
            },
        }
    }
}

/// Texts between their quotes.
pub open spec fn quotes(list: Seq<Seq<char>>) -> Seq<Seq<char>> {
    list.map_values(|text: Seq<char>| debug_text(text))
}

/// What to tell the user where no modules can be measured.
pub open spec fn module_message(failure: ModuleFailure) -> Seq<char> {
    match failure {
        ModuleFailure::ZeroDepth => "Module depth must be greater than zero"@,
        ModuleFailure::Globs { failure } => glob_message(
            failure,
            "Invalid module glob "@,
            "Compiling module globs"@,
        ),
        ModuleFailure::NoMatch { depth, patterns } =>
            "No discovered directory modules match at depth "@ + decimal(depth as nat)
                + " in the sampled commits (globs: ["@ + joined(quotes(patterns), ", "@)
                + "]); files are not modules. Adjust --depth, --glob, or the time range; use measure for repository-root files"@,
    }
}

fn quote_all(list: &Vec<String>) -> (quoted_list: Vec<String>)
    ensures
        texts(quoted_list@) == quotes(texts(list@)),
{
    let mut result: Vec<String> = Vec::new();
    let mut k: usize = 0;
    while k < list.len()
        invariant
            k <= list@.len(),
            result@.len() == k,
            forall|i: int| 0 <= i < k ==> (#[trigger] result@[i])@ == debug_text(list@[i]@),
        decreases list@.len() - k,
    {
        result.push(quoted(list[k].as_str()));
        k = k + 1;
    }
    assert(texts(result@) =~= quotes(texts(list@)));
    result
}

impl ModuleError {
    /// What to tell the user.
    pub fn message(&self) -> (message: String)
        ensures
            message@ == module_message(self@),
    {
        match self {
            ModuleError::ZeroDepth => "Module depth must be greater than zero".to_owned(),
            ModuleError::Globs { error } => error.message(
                "Invalid module glob ",
                "Compiling module globs",
            ),
            ModuleError::NoMatch { depth, globs } => {
                let mut message = "No discovered directory modules match at depth ".to_owned();
                let number = count_text(*depth);
                message.append(number.as_str());
                message.append(" in the sampled commits (globs: [");
                let list = quote_all(globs);
                let patterns = join(&list, ", ");
                message.append(patterns.as_str());
                message.append(
                    "]); files are not modules. Adjust --depth, --glob, or the time range; use measure for repository-root files",
                );
                message
            },
        }
    }
}

/// The end of the `n`-th directory of a path, from a position on; the length of
/// the path where there are fewer.
pub open spec fn directory_end(path: Seq<char>, n: nat, at: int) -> int
    decreases n,
{
    if n == 0 {
        path.len() as int
    } else {
        let end = find_char(path, '/', at);
        if end >= path.len() || n == 1 {
            end
        } else {
            directory_end(path, (n - 1) as nat, end + 1)
        }
    }
}

/// The module of an entry: its first directories, as many as the depth says.
/// File names never count.
pub open spec fn module_key(path: Seq<char>, depth: usize) -> Option<Seq<char>> {
    let end = directory_end(path, depth as nat, 0);
    if end < path.len() {
        Some(path.subrange(0, end))
    } else {
        None
    }
}

/// The module is selected: every one is where there are no patterns.
pub open spec fn is_selected(globs: Seq<Seq<char>>, key: Seq<char>) -> bool {
    globs.len() == 0 || matches_any(globs, true, key)
}

/// Which directories are modules, and which modules are measured.
pub struct ModuleSelection {
    pub config: ModuleConfig,
    pub fingerprint: String,
    pub matcher: globset::GlobSet,
}

impl ModuleSelection {
    /// There is a depth, and the fingerprint and the compiled patterns are those of
    /// the grouping.
    pub open spec fn wf(&self) -> bool {
        &&& self.config.depth > 0
        &&& self.fingerprint@ == text_fingerprint(module_config_json(self.config@))
        &&& set_globs(self.matcher) == globs_of(self.config@.globs, true)
    }

    /// A selection of the modules at a depth.
    pub fn new(depth: usize, globs: Vec<String>) -> (result: Result<Self, ModuleError>)
        ensures
            ({
                let config = ModuleConfigModel {
                    kind: "directories"@,
                    depth,
                    globs: texts(globs@),
                };
                match result {
                    Ok(selection) => {
                        &&& depth > 0
                        &&& compiled(texts(globs@), true) is Ok
                        &&& selection.wf()
                        &&& selection.config@ == config
                        &&& selection.fingerprint@ == text_fingerprint(module_config_json(config))
                        &&& is_fingerprint(selection.fingerprint@)
                    },
                    Err(error) => if depth == 0 {
                        error@ == ModuleFailure::ZeroDepth
                    } else {
                        &&& error@ is Globs
                        &&& compiled(texts(globs@), true) == Err::<
                            Seq<(Seq<char>, bool)>,
                            GlobFailure,
                        >(error@->failure)
                    },
                }
            }),
    {
        if depth == 0 {
            return Err(ModuleError::ZeroDepth);
        }
        let matcher = match compile(&globs, true) {
            Ok(matcher) => matcher,
            Err(error) => {
                return Err(ModuleError::Globs { error });
            },
        };
        proof {
            compiled_sets_hold_their_patterns(texts(globs@), true);
        }
        let config = ModuleConfig { kind: "directories", depth, globs };
        let json = config.json();
        let fingerprint = text_fingerprint_of(json.as_str());
        Ok(ModuleSelection { config, fingerprint, matcher })
    }

    /// The module of an entry.
    pub fn key<'a>(&self, path: &'a str) -> (key: Option<&'a str>)
        requires
            self.wf(),
        ensures
            crate::format::optional_str(key) == module_key(path@, self.config.depth),
    {
        let length: usize = path.unicode_len();
        let mut left: usize = self.config.depth;
        let mut at: usize = 0;
        while left > 1
            invariant
                1 <= left,
                at <= length == path@.len(),
                directory_end(path@, left as nat, at as int) == directory_end(
                    path@,
                    self.config.depth as nat,
                    0,
                ),
            decreases left,
        {
            let end: usize = position_of(path, '/', at);
            if end >= length {
                return None;
            }
            at = end + 1;
            left = left - 1;
        }
        let end: usize = position_of(path, '/', at);
        if end >= length {
            None
        } else {
            Some(path.substring_char(0, end))
        }
    }

    /// The module is selected.
    pub fn matches(&self, key: &str) -> (r: bool)
        requires
            self.wf(),
        ensures
            r == is_selected(self.config@.globs, key@),
    {
        self.config.globs.len() == 0 || set_matches(&self.matcher, key)
    }
}

/// The modules of the first `n` entries, added to those that are known.
pub open spec fn discovered(
    known: Seq<(Seq<char>, ())>,
    entries: Seq<EntryModel>,
    depth: usize,
    n: int,
) -> Seq<(Seq<char>, ())>
    decreases n,
{
    if n <= 0 {
        known
    } else {
        let before = discovered(known, entries, depth, n - 1);
        match module_key(entries[n - 1].path, depth) {
            Some(key) => put(before, key, ()),
            None => before,
        }
    }
}

/// A module is discovered exactly where it was known or some entry lies in it.
/// Modules stay in order, each one once.
pub proof fn discovery_is_exact(
    known: Seq<(Seq<char>, ())>,
    entries: Seq<EntryModel>,
    depth: usize,
    n: int,
    key: Seq<char>,
)
    requires
        keys_ascend(known),
        0 <= n <= entries.len(),
    ensures
        keys_ascend(discovered(known, entries, depth, n)),
        lookup(discovered(known, entries, depth, n), key) is Some <==> lookup(known, key) is Some
            || exists|k: int|
            0 <= k < n && module_key((#[trigger] entries[k]).path, depth) == Some(key),
    decreases n,
{
    if n > 0 {
        discovery_is_exact(known, entries, depth, n - 1, key);
        let before = discovered(known, entries, depth, n - 1);
        match module_key(entries[n - 1].path, depth) {
            Some(found) => {
                put_and_lookup(before, found, (), key);
                if found == key {
                    assert(module_key(entries[n - 1].path, depth) == Some(key));
                }
            },
            None => {},
        }
    }
}

/// The selected ones of the first `n` modules.
pub open spec fn selected(found: Seq<(Seq<char>, ())>, globs: Seq<Seq<char>>, n: int) -> Seq<
    (Seq<char>, ()),
>
    decreases n,
{
    if n <= 0 {
        Seq::empty()
    } else {
        let before = selected(found, globs, n - 1);
        if is_selected(globs, found[n - 1].0) {
            put(before, found[n - 1].0, ())
        } else {
            before
        }
    }
}

/// Exactly the discovered modules that a pattern matches are selected, in order.
pub proof fn selection_is_exact(
    found: Seq<(Seq<char>, ())>,
    globs: Seq<Seq<char>>,
    n: int,
    key: Seq<char>,
)
    requires
        0 <= n <= found.len(),
    ensures
        keys_ascend(selected(found, globs, n)),
        lookup(selected(found, globs, n), key) is Some <==> is_selected(globs, key) && exists|k: int|
            0 <= k < n && (#[trigger] found[k]).0 == key,
    decreases n,
{
    if n > 0 {
        selection_is_exact(found, globs, n - 1, key);
        let before = selected(found, globs, n - 1);
        if is_selected(globs, found[n - 1].0) {
            put_and_lookup(before, found[n - 1].0, (), key);
            if found[n - 1].0 == key {
                assert(found[n - 1].0 == key);
            }
        }
    }
}

/// Where an entry stands.
#[derive(Clone, Copy, Debug, PartialEq, Eq, Structural)]
pub enum Placement {
    /// Above the depth.
    Outside,
    /// In a module that is not selected.
    Unselected,
    /// In the selected module at a place in the order.
    Selected(usize),
}

/// An entry stands in the selected module at a place in the order.
pub open spec fn stands_in(
    path: Seq<char>,
    depth: usize,
    modules: Seq<(Seq<char>, ())>,
    at: int,
) -> bool {
    0 <= at < modules.len() && module_key(path, depth) == Some(modules[at].0)
}

/// An entry stands in some selected module.
pub open spec fn stands_selected(
    path: Seq<char>,
    depth: usize,
    modules: Seq<(Seq<char>, ())>,
) -> bool {
    match module_key(path, depth) {
        Some(key) => lookup(modules, key) is Some,
        None => false,
    }
}

/// An entry stands in some selected module exactly where it stands in one of them.
pub proof fn selected_entries_stand_in_a_module(
    path: Seq<char>,
    depth: usize,
    modules: Seq<(Seq<char>, ())>,
)
    ensures
        stands_selected(path, depth, modules) <==> exists|k: int| #[trigger]
            stands_in(path, depth, modules, k),
{
    match module_key(path, depth) {
        Some(key) => {
            lemma_lookup_index(modules, key);
            if stands_selected(path, depth, modules) {
                let k = choose|k: int| 0 <= k < modules.len() && (#[trigger] modules[k]).0 == key;
                assert(stands_in(path, depth, modules, k));
            }
            if exists|k: int| #[trigger] stands_in(path, depth, modules, k) {
                let k = choose|k: int| #[trigger] stands_in(path, depth, modules, k);
                assert(modules[k].0 == key);
            }
        },
        None => {},
    }
}

/// How many of the first `n` entries stand above the depth.
pub open spec fn outside_count(entries: Seq<EntryModel>, depth: usize, n: int) -> nat
    decreases n,
{
    if n <= 0 {
        0
    } else {
        outside_count(entries, depth, n - 1) + if module_key(entries[n - 1].path, depth) is None {
            1nat
        } else {
            0
        }
    }
}

/// How many of the first `n` entries stand in selected modules.
pub open spec fn selected_count(
    entries: Seq<EntryModel>,
    depth: usize,
    modules: Seq<(Seq<char>, ())>,
    n: int,
) -> nat
    decreases n,
{
    if n <= 0 {
        0
    } else {
        selected_count(entries, depth, modules, n - 1) + if stands_selected(
            entries[n - 1].path,
            depth,
            modules,
        ) {
            1nat
        } else {
            0
        }
    }
}

/// How many of the first `n` entries stand in modules that are not selected.
pub open spec fn unselected_count(
    entries: Seq<EntryModel>,
    depth: usize,
    modules: Seq<(Seq<char>, ())>,
    n: int,
) -> nat
    decreases n,
{
    if n <= 0 {
        0
    } else {
        unselected_count(entries, depth, modules, n - 1) + if module_key(
            entries[n - 1].path,
            depth,
        ) is Some && !stands_selected(entries[n - 1].path, depth, modules) {
            1nat
        } else {
            0
        }
    }
}

/// How many of the first `n` entries stand in one selected module.
pub open spec fn module_count(
    entries: Seq<EntryModel>,
    depth: usize,
    modules: Seq<(Seq<char>, ())>,
    at: int,
    n: int,
) -> nat
    decreases n,
{
    if n <= 0 {
        0
    } else {
        module_count(entries, depth, modules, at, n - 1) + if stands_in(
            entries[n - 1].path,
            depth,
            modules,
            at,
        ) {
            1nat
        } else {
            0
        }
    }
}

/// The entries of the first `m` selected modules, added up.
pub open spec fn modules_count(
    entries: Seq<EntryModel>,
    depth: usize,
    modules: Seq<(Seq<char>, ())>,
    m: int,
    n: int,
) -> nat
    decreases m,
{
    if m <= 0 {
        0
    } else {
        modules_count(entries, depth, modules, m - 1, n) + module_count(
            entries,
            depth,
            modules,
            m - 1,
            n,
        )
    }
}

proof fn lemma_lookup_index(modules: Seq<(Seq<char>, ())>, key: Seq<char>)
    ensures
        lookup(modules, key) is Some <==> exists|k: int|
            0 <= k < modules.len() && (#[trigger] modules[k]).0 == key,
    decreases modules.len(),
{
    if modules.len() > 0 {
        let rest = modules.drop_last();
        lemma_lookup_index(rest, key);
        if modules.last().0 == key {
            assert(modules[modules.len() - 1].0 == key);
        } else {
            if exists|k: int| 0 <= k < rest.len() && (#[trigger] rest[k]).0 == key {
                let k = choose|k: int| 0 <= k < rest.len() && (#[trigger] rest[k]).0 == key;
                assert(modules[k].0 == key);
            }
            if exists|k: int| 0 <= k < modules.len() && (#[trigger] modules[k]).0 == key {
                let k = choose|k: int| 0 <= k < modules.len() && (#[trigger] modules[k]).0 == key;
                assert(rest[k].0 == key);
            }
        }
    }
}

proof fn lemma_no_entries(
    entries: Seq<EntryModel>,
    depth: usize,
    modules: Seq<(Seq<char>, ())>,
    m: int,
)
    ensures
        modules_count(entries, depth, modules, m, 0) == 0,
    decreases m,
{
    if m > 0 {
        lemma_no_entries(entries, depth, modules, m - 1);
    }
}

/// An entry stands in one of the first `m` selected modules.
spec fn stands_among(path: Seq<char>, depth: usize, modules: Seq<(Seq<char>, ())>, m: int) -> bool {
    exists|k: int| 0 <= k < m && #[trigger] stands_in(path, depth, modules, k)
}

proof fn lemma_entry_in_modules(
    entries: Seq<EntryModel>,
    depth: usize,
    modules: Seq<(Seq<char>, ())>,
    m: int,
    n: int,
)
    requires
        keys_ascend(modules),
        0 <= m <= modules.len(),
        0 < n,
    ensures
        modules_count(entries, depth, modules, m, n) == modules_count(
            entries,
            depth,
            modules,
            m,
            n - 1,
        ) + if stands_among(entries[n - 1].path, depth, modules, m) {
            1nat
        } else {
            0
        },
    decreases m,
{
    let path = entries[n - 1].path;
    if m > 0 {
        lemma_entry_in_modules(entries, depth, modules, m - 1, n);
        if stands_in(path, depth, modules, m - 1) {
            assert forall|k: int| 0 <= k < m - 1 implies !stands_in(path, depth, modules, k) by {
                assert(text_less(modules[k].0, modules[m - 1].0));
                text_order_is_strict(modules[k].0, modules[m - 1].0, modules[k].0);
            }
        } else if stands_among(path, depth, modules, m) {
            let k = choose|k: int| 0 <= k < m && #[trigger] stands_in(path, depth, modules, k);
            assert(k < m - 1);
        }
    }
}

/// Every entry is counted once: above the depth, in a module that is not
/// selected, or in exactly one of the selected modules.
pub proof fn inventory_is_a_partition(
    entries: Seq<EntryModel>,
    depth: usize,
    modules: Seq<(Seq<char>, ())>,
    n: int,
)
    requires
        keys_ascend(modules),
        0 <= n <= entries.len(),
    ensures
        n == outside_count(entries, depth, n) + unselected_count(entries, depth, modules, n)
            + selected_count(entries, depth, modules, n),
        modules_count(entries, depth, modules, modules.len() as int, n) == selected_count(
            entries,
            depth,
            modules,
            n,
        ),
    decreases n,
{
    let m = modules.len() as int;
    if n > 0 {
        inventory_is_a_partition(entries, depth, modules, n - 1);
        let path = entries[n - 1].path;
        lemma_entry_in_modules(entries, depth, modules, m, n);
        match module_key(path, depth) {
            Some(key) => {
                lemma_lookup_index(modules, key);
                if stands_selected(path, depth, modules) {
                    let k = choose|k: int| 0 <= k < m && (#[trigger] modules[k]).0 == key;
                    assert(stands_in(path, depth, modules, k));
                } else if stands_among(path, depth, modules, m) {
                    let k = choose|k: int| 0 <= k < m && #[trigger] stands_in(path, depth, modules, k);
                    assert(modules[k].0 == key);
                }
            },
            None => {},
        }
    } else {
        lemma_no_entries(entries, depth, modules, m);
    }
}

/// Where the entries of a checkpoint stand.
#[derive(Debug)]
pub struct ModuleInventory {
    pub cutoff_utc: i64,
    pub commit: Option<Commit>,
    pub tracked_entries: usize,
    pub outside_depth_entries: usize,
    pub unselected_module_entries: usize,
    pub selected_module_entries: usize,
}

#[verifier::ext_equal]
pub struct InventoryModel {
    pub cutoff_utc: i64,
    pub commit: Option<CommitModel>,
    pub tracked_entries: usize,
    pub outside_depth_entries: usize,
    pub unselected_module_entries: usize,
    pub selected_module_entries: usize,
}

impl View for ModuleInventory {
    type V = InventoryModel;

    open spec fn view(&self) -> InventoryModel {
        InventoryModel {
            cutoff_utc: self.cutoff_utc,
            commit: commit_model(self.commit),
            tracked_entries: self.tracked_entries,
            outside_depth_entries: self.outside_depth_entries,
            unselected_module_entries: self.unselected_module_entries,
            selected_module_entries: self.selected_module_entries,
        }
    }
}

pub open spec fn inventory_models(list: Seq<ModuleInventory>) -> Seq<InventoryModel> {
    list.map_values(|i: ModuleInventory| i@)
}

/// Where the first `n` entries of a checkpoint stand.
pub open spec fn inventory_of(
    checkpoint: CheckpointModel,
    entries: Seq<EntryModel>,
    depth: usize,
    modules: Seq<(Seq<char>, ())>,
    n: int,
) -> InventoryModel {
    InventoryModel {
        cutoff_utc: checkpoint.cutoff,
        commit: checkpoint.commit,
        tracked_entries: n as usize,
        outside_depth_entries: outside_count(entries, depth, n) as usize,
        unselected_module_entries: unselected_count(entries, depth, modules, n) as usize,
        selected_module_entries: selected_count(entries, depth, modules, n) as usize,
    }
}

impl ModuleSelection {
    /// Adds the modules of the entries to those that are known.
    pub fn discover(&self, modules: &mut OrderedMap<()>, entries: &Vec<TreeEntry>)
        requires
            self.wf(),
        ensures
            final(modules)@ == discovered(
                old(modules)@,
                entry_models(entries@),
                self.config.depth,
                entries@.len() as int,
            ),
    {
        let ghost known = modules@;
        let ghost models = entry_models(entries@);
        let mut k: usize = 0;
        while k < entries.len()
            invariant
                self.wf(),
                models == entry_models(entries@),
                k <= entries@.len(),
                modules@ == discovered(known, models, self.config.depth, k as int),
            decreases entries@.len() - k,
        {
            assert(models[k as int] == entries@[k as int]@);
            match self.key(entries[k].path.as_str()) {
                Some(key) => {
                    modules.set(key, ());
                },
                None => {},
            }
            k = k + 1;
        }
    }

    /// The discovered modules that are selected. There must be one.
    pub fn select(&self, found: &OrderedMap<()>) -> (result: Result<OrderedMap<()>, ModuleError>)
        requires
            self.wf(),
        ensures
            ({
                let modules = selected(found@, self.config@.globs, found@.len() as int);
                match result {
                    Ok(chosen) => modules.len() > 0 && chosen@ == modules,
                    Err(error) => modules.len() == 0 && error@ == (ModuleFailure::NoMatch {
                        depth: self.config.depth,
                        patterns: self.config@.globs,
                    }),
                }
            }),
    {
        let mut chosen: OrderedMap<()> = OrderedMap::new();
        let n: usize = found.len();
        let mut k: usize = 0;
        while k < n
            invariant
                self.wf(),
                n == found@.len(),
                k <= n,
                chosen@ == selected(found@, self.config@.globs, k as int),
            decreases n - k,
        {
            if self.matches(found.key(k)) {
                chosen.set(found.key(k), ());
            }
            k = k + 1;
        }
        if chosen.len() == 0 {
            return Err(
                ModuleError::NoMatch {
                    depth: self.config.depth,
                    globs: crate::config::copy_texts(&self.config.globs),
                },
            );
        }
        Ok(chosen)
    }

    /// Where an entry stands among the selected modules.
    pub fn place(&self, modules: &OrderedMap<()>, path: &str) -> (place: Placement)
        requires
            self.wf(),
        ensures
            match place {
                Placement::Outside => module_key(path@, self.config.depth) is None,
                Placement::Unselected => module_key(path@, self.config.depth) is Some
                    && !stands_selected(path@, self.config.depth, modules@),
                Placement::Selected(at) => stands_selected(path@, self.config.depth, modules@)
                    && stands_in(path@, self.config.depth, modules@, at as int),
            },
    {
        match self.key(path) {
            None => Placement::Outside,
            Some(key) => match modules.position(key) {
                Some(at) => Placement::Selected(at),
                None => Placement::Unselected,
            },
        }
    }
}

/// The snapshot of a module when every entry is in. A module without an entry in
/// a commit is absent from it, which is not the same as having no score.
pub open spec fn module_finished(s: SnapshotModel) -> SnapshotModel {
    let done = finished(s, 0);
    if done.commit is Some && done.coverage.tracked_entries == 0 {
        SnapshotModel { status: Status::NoFiles, ..done }
    } else {
        done
    }
}

/// The snapshot of a module when every entry is in.
pub fn finish_module(accumulator: SnapshotAccumulator) -> (snapshot: Snapshot)
    ensures
        snapshot@ == module_finished(accumulator@),
        sound(accumulator@) ==> sound(snapshot@),
{
    let mut snapshot = accumulator.finish(0);
    if snapshot.commit.is_some() && snapshot.coverage.tracked_entries == 0 {
        snapshot.status = Status::NoFiles;
    }
    snapshot
}

/// A module's status tells an absent commit, an absent module, a failure and a
/// missing score from each other; only the rest is complete.
pub proof fn absence_is_not_a_score(s: SnapshotModel)
    requires
        sound(s),
        s.commit is None ==> s.status is NoCommit,
    ensures
        module_finished(s).status is NoCommit <==> s.commit is None,
        module_finished(s).status is NoFiles <==> s.commit is Some && s.coverage.tracked_entries
            == 0,
        module_finished(s).status is Partial <==> s.commit is Some && s.coverage.failed_files > 0,
        module_finished(s).status is Complete ==> s.measurable,
        module_finished(s).measurable == s.measurable,
{
}

/// One module through all checkpoints.
pub struct ModuleSeries {
    pub path: String,
    pub snapshots: Vec<Snapshot>,
}

#[verifier::ext_equal]
pub struct SeriesModel {
    pub path: Seq<char>,
    pub snapshots: Seq<SnapshotModel>,
}

impl View for ModuleSeries {
    type V = SeriesModel;

    open spec fn view(&self) -> SeriesModel {
        SeriesModel { path: self.path@, snapshots: snapshot_models(self.snapshots@) }
    }
}

pub open spec fn series_models(series: Seq<ModuleSeries>) -> Seq<SeriesModel> {
    series.map_values(|s: ModuleSeries| s@)
}

/// Series with their changes.
pub open spec fn compared_series(series: Seq<SeriesModel>) -> Seq<SeriesModel> {
    series.map_values(
        |s: SeriesModel| SeriesModel { path: s.path, snapshots: compared(s.snapshots) },
    )
}

/// The measurement of modules through all checkpoints.
pub struct ModuleReport {
    pub schema_version: u32,
    pub tool_version: &'static str,
    pub mode: &'static str,
    pub reference: Commit,
    pub metric: MetricIdentity,
    pub grouping: ModuleConfig,
    pub grouping_fingerprint: String,
    pub file_scope: &'static str,
    pub test_exclusion: Option<TestExclusionPolicy>,
    pub discovered_modules: usize,
    pub inventory: Vec<ModuleInventory>,
    pub modules: Vec<ModuleSeries>,
}

fn compare_series(series: Vec<ModuleSeries>) -> (result: Vec<ModuleSeries>)
    ensures
        series_models(result@) == compared_series(series_models(series@)),
{
    let ghost all = series_models(series@);
    let mut rest = series;
    let mut backwards: Vec<ModuleSeries> = Vec::new();
    while rest.len() > 0
        invariant
            rest@.len() + backwards@.len() == all.len(),
            forall|i: int| 0 <= i < rest@.len() ==> (#[trigger] rest@[i])@ == all[i],
            forall|i: int|
                0 <= i < backwards@.len() ==> (#[trigger] backwards@[i])@ == compared_series(
                    all,
                )[all.len() - 1 - i],
        decreases rest@.len(),
    {
        let ghost n = rest@.len() as int;
        assert(rest@[n - 1]@ == all[n - 1]);
        match rest.pop() {
            Some(one) => {
                let done = ModuleSeries {
                    path: one.path,
                    snapshots: compare_snapshots(one.snapshots),
                };
                assert(done@ == compared_series(all)[n - 1]);
                backwards.push(done);
            },
            None => {},
        }
    }
    let mut result: Vec<ModuleSeries> = Vec::new();
    while backwards.len() > 0
        invariant
            result@.len() + backwards@.len() == all.len(),
            forall|i: int|
                0 <= i < result@.len() ==> (#[trigger] result@[i])@ == compared_series(all)[i],
            forall|i: int|
                0 <= i < backwards@.len() ==> (#[trigger] backwards@[i])@ == compared_series(
                    all,
                )[all.len() - 1 - i],
        decreases backwards@.len(),
    {
        let ghost n = backwards@.len() as int;
        assert(backwards@[n - 1]@ == compared_series(all)[all.len() - n]);
        match backwards.pop() {
            Some(one) => {
                result.push(one);
            },
            None => {},
        }
    }
    assert(series_models(result@) =~= compared_series(all));
    result
}

/// The schema of a report on modules.
pub open spec fn modules_schema(excludes: bool) -> u32 {
    if excludes {
        4
    } else {
        2
    }
}

/// The files that a report on modules measures.
pub open spec fn modules_file_scope(excludes: bool) -> Seq<char> {
    if excludes {
        "exclude_language_tests"@
    } else {
        "all_tracked_entries"@
    }
}

/// The paths of series, in order.
pub open spec fn series_paths(series: Seq<SeriesModel>) -> Seq<Seq<char>> {
    series.map_values(|s: SeriesModel| s.path)
}

/// The keys of modules, in order.
pub open spec fn map_keys(modules: Seq<(Seq<char>, ())>) -> Seq<Seq<char>> {
    modules.map_values(|m: (Seq<char>, ())| m.0)
}

/// A report holds what modules came to through all checkpoints, with or without test
/// code.
pub open spec fn reports_modules(
    report: ModuleReport,
    excludes: bool,
    config: ModuleConfigModel,
    modules: Seq<(Seq<char>, ())>,
    checkpoints: Seq<CheckpointModel>,
    trees: Seq<Seq<EntryModel>>,
) -> bool {
    let series = series_models(report.modules@);
    let inventory = inventory_models(report.inventory@);
    &&& report.schema_version == modules_schema(excludes)
    &&& report.file_scope@ == modules_file_scope(excludes)
    &&& report.test_exclusion is Some <==> excludes
    &&& report.grouping@ == config
    &&& report.grouping_fingerprint@ == effective_fingerprint(
        text_fingerprint(module_config_json(config)),
        excludes,
    )
    &&& modules.len() > 0
    &&& keys_ascend(modules)
    &&& series_paths(series) == map_keys(modules)
    &&& inventory.len() == checkpoints.len()
    &&& inventory == inventories(checkpoints, trees, config.depth, modules)
    &&& shares_counted(series, trees, config.depth, modules)
    &&& history_balanced(series, inventory)
}

/// Reports with and without test code on the same modules and entries are told apart by
/// their schema and their file scope, and by their fingerprints but for a collision of
/// digests. They hold the same modules and the same inventory, and each module has the
/// same entries in both.
pub proof fn filtered_module_reports_are_told_apart(
    plain: ModuleReport,
    filtered: ModuleReport,
    config: ModuleConfigModel,
    modules: Seq<(Seq<char>, ())>,
    checkpoints: Seq<CheckpointModel>,
    trees: Seq<Seq<EntryModel>>,
)
    requires
        reports_modules(plain, false, config, modules, checkpoints, trees),
        reports_modules(filtered, true, config, modules, checkpoints, trees),
    ensures
        plain.schema_version == 2,
        filtered.schema_version == 4,
        plain.file_scope@ == "all_tracked_entries"@,
        filtered.file_scope@ == "exclude_language_tests"@,
        plain.file_scope@ != filtered.file_scope@,
        ({
            let json = module_config_json(config);
            let with_policy = filtered_scope_json(text_fingerprint(json));
            &&& json != with_policy
            &&& filtered.grouping_fingerprint@ == plain.grouping_fingerprint@ <==> digests_collide(
                encode_utf8(json),
                encode_utf8(with_policy),
            )
        }),
        inventory_models(filtered.inventory@) == inventory_models(plain.inventory@),
        series_paths(series_models(filtered.modules@)) == series_paths(series_models(plain.modules@)),
        forall|k: int, i: int|
            0 <= k < modules.len() && 0 <= i < checkpoints.len() ==> (
            #[trigger] series_models(
                filtered.modules@,
            )[k].snapshots[i]).coverage.tracked_entries == series_models(
                plain.modules@,
            )[k].snapshots[i].coverage.tracked_entries,
{
    reveal_strlit("exclude_language_tests");
    reveal_strlit("all_tracked_entries");
    reveal_strlit("{\"kind\":");
    reveal_strlit("[");
    let json = module_config_json(config);
    let with_policy = filtered_scope_json(text_fingerprint(json));
    assert(json[0] == '{');
    assert(with_policy[0] == '[');
    assert("exclude_language_tests"@.len() != "all_tracked_entries"@.len());
    fingerprints_differ_unless_digests_collide(json, with_policy);
    let (a, b) = (series_models(plain.modules@), series_models(filtered.modules@));
    assert(series_paths(a).len() == modules.len() && series_paths(b).len() == modules.len());
    assert forall|k: int, i: int| 0 <= k < modules.len() && 0 <= i < checkpoints.len() implies (
    #[trigger] b[k].snapshots[i]).coverage.tracked_entries
        == a[k].snapshots[i].coverage.tracked_entries by {
        assert(inventory_models(plain.inventory@).len() == trees.len());
    }
}

impl Analyzer {
    /// The report of modules through all checkpoints. Reports without test code
    /// have a schema of their own.
    pub fn modules_report(
        &self,
        selection: &ModuleSelection,
        reference: Commit,
        discovered_modules: usize,
        modules: &OrderedMap<()>,
        history: ModuleHistory,
        tool_version: &'static str,
    ) -> (report: ModuleReport)
        requires
            selection.wf(),
            history.wf(selection.config.depth, modules@),
            history.inventory@.len() == history.checkpoints@.len(),
        ensures
            reports_modules(
                report,
                self.leaves_out_tests(),
                selection.config@,
                modules@,
                checkpoint_models(history.checkpoints@),
                history.trees@,
            ),
            report.tool_version@ == tool_version@,
            report.mode@ == "modules"@,
            report.reference == reference,
            report.metric@ == current_identity(self.cache.fingerprint@),
            report.test_exclusion matches Some(policy) ==> policy@ == exclusion_policy(),
            report.discovered_modules == discovered_modules,
            report.inventory == history.inventory,
            series_models(report.modules@) == compared_series(series_models(history.series@)),
    {
        proof {
            changes_keep_the_balance(
                series_models(history.series@),
                inventory_models(history.inventory@),
            );
            let series = series_models(history.series@);
            let after = compared_series(series);
            assert(series_paths(after) =~= map_keys(modules@));
            assert forall|k: int, i: int|
                0 <= k < after.len() && 0 <= i < history.trees@.len() implies (
            #[trigger] after[k].snapshots[i]).coverage.tracked_entries == module_count(
                history.trees@[i],
                selection.config.depth,
                modules@,
                k,
                history.trees@[i].len() as int,
            ) by {
                assert(series[k].snapshots.len() == inventory_models(history.inventory@).len());
                assert(after[k].snapshots[i].coverage == series[k].snapshots[i].coverage);
            }
        }
        let test_exclusion = self.test_exclusion();
        let excludes: bool = test_exclusion.is_some();
        let schema_version: u32 = if excludes {
            4
        } else {
            2
        };
        ModuleReport {
            schema_version,
            tool_version,
            mode: "modules",
            reference,
            metric: MetricIdentity::current(self.cache.fingerprint.as_str()),
            grouping: selection.config.clone(),
            grouping_fingerprint: self.scope_fingerprint(selection.fingerprint.as_str()),
            file_scope: if excludes {
                "exclude_language_tests"
            } else {
                "all_tracked_entries"
            },
            test_exclusion,
            discovered_modules,
            inventory: history.inventory,
            modules: compare_series(history.series),
        }
    }
}

/// The lines on what failed in the first `n` modules.
pub open spec fn module_failure_lines(series: Seq<SeriesModel>, n: int) -> Seq<Seq<char>>
    decreases n,
{
    if n <= 0 {
        Seq::empty()
    } else {
        module_failure_lines(series, n - 1) + failure_lines(
            series[n - 1].snapshots,
            series[n - 1].snapshots.len() as int,
        )
    }
}

/// How many sources failed in the first `n` modules.
pub open spec fn module_failure_count(series: Seq<SeriesModel>, n: int) -> nat
    decreases n,
{
    if n <= 0 {
        0
    } else {
        module_failure_count(series, n - 1) + failure_count(
            series[n - 1].snapshots,
            series[n - 1].snapshots.len() as int,
        )
    }
}

/// What failed in a report on modules.
pub fn module_failures(report: &ModuleReport) -> (failures: Failures)
    ensures
        failures.wf(),
        texts(failures.lines@) == module_failure_lines(
            series_models(report.modules@),
            report.modules@.len() as int,
        ),
        failures.failed == module_failure_count(
            series_models(report.modules@),
            report.modules@.len() as int,
        ),
{
    let ghost models = series_models(report.modules@);
    let mut failures = Failures::new();
    let mut k: usize = 0;
    while k < report.modules.len()
        invariant
            k <= report.modules@.len(),
            models == series_models(report.modules@),
            failures.wf(),
            texts(failures.lines@) == module_failure_lines(models, k as int),
            failures.failed == module_failure_count(models, k as int),
        decreases report.modules@.len() - k,
    {
        assert(models[k as int] == report.modules@[k as int]@);
        assert(models[k as int].snapshots.len() == report.modules@[k as int].snapshots@.len());
        failures.add_all(&report.modules[k].snapshots);
        k = k + 1;
    }
    failures
}

/// Refuses a report on modules in which something failed, unless an incomplete
/// one is asked for.
pub fn require_complete(report: &ModuleReport, allow_partial: bool) -> (result: Result<(), String>)
    ensures
        ({
            let failed = module_failure_count(
                series_models(report.modules@),
                report.modules@.len() as int,
            );
            match result {
                Ok(()) => failed == 0 || allow_partial,
                Err(message) => failed > 0 && !allow_partial && message@ == incomplete_message(
                    failed,
                ),
            }
        }),
{
    let failures = module_failures(report);
    failures.check(allow_partial)
}

} // verus!
