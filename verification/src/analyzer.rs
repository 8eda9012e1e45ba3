//! The analysis of sources, with what is known of them from before.
//!
//! A source is analyzed once for each language and blob. What is kept of an
//! earlier analysis is never taken for granted when the source is analyzed again:
//! the two must agree.

use std::sync::Arc;
use vstd::prelude::*;
use vstd::string::*;

use crate::cache::{
    cache_message, count, counted, exclusion_recalled, is_blob_id, raw_key, raw_recalled, test_key,
    Cache, CacheError, Stored,
};
use crate::config::Scope;
use crate::digest::{is_fingerprint, text_fingerprint, text_fingerprint_of};
use crate::format::{debug_text, quoted};
use crate::git::TreeEntry;
use crate::json::{json_string, json_string_text};
use crate::languages::adapters::{
    adapter_failure, adapter_message, is_test_path, language_analysis, AdapterFailure,
};
use crate::languages::policy::{
    exclusion_policy, exclusion_policy_json, language_at, nth_language, policy_fingerprint,
    policy_of, TestExclusionPolicy,
};
use crate::languages::tree::AnalysisError;
use crate::languages::{adapter_for, Adapter, AdapterError, Language, LanguageAdapter};
use crate::metrics::{
    same_analysis, same_exclusion, AnalysisModel, ExclusionModel, FileAnalysis,
    TestExclusionAnalysis,
};
use crate::scope_history::scope_class;
use crate::snapshot::{
    adds_up, entry_class, recorded, sound, tests_are_counted, with_excluded, with_skipped, EntryClass,
    SnapshotAccumulator, SnapshotModel,
};

verus! {

/// What was measured of all code.
pub open spec fn raw_of(analysis: AnalysisModel) -> AnalysisModel {
    AnalysisModel { without_tests: None, ..analysis }
}

/// What leaving out test code came to.
pub open spec fn exclusion_of(analysis: AnalysisModel) -> ExclusionModel {
    ExclusionModel { without_tests: analysis.without_tests }
}

/// An analysis that may be there.
pub open spec fn raw_model(raw: Option<Arc<FileAnalysis>>) -> Option<AnalysisModel> {
    match raw {
        Some(raw) => Some((*raw)@),
        None => None,
    }
}

/// Filtered measurements that may be there.
pub open spec fn derived_model(exclusion: Option<Arc<TestExclusionAnalysis>>) -> Option<
    ExclusionModel,
> {
    match exclusion {
        Some(exclusion) => Some((*exclusion)@),
        None => None,
    }
}

/// Filtered measurements are looked up: where test code is left out, unless the
/// source is known not to be valid.
pub open spec fn looks_up_exclusion(excludes: bool, raw: Option<AnalysisModel>) -> bool {
    excludes && match raw {
        Some(raw) => raw.diagnostics.len() == 0,
        None => true,
    }
}

/// Where test code is kept, nothing that was kept without it is looked up, and the
/// analysis of all code settles a source.
pub proof fn raw_runs_need_no_filtered_records(raw: Option<AnalysisModel>)
    ensures
        !looks_up_exclusion(false, raw),
        is_unsettled(false, raw, None) <==> raw is None,
{
}

/// The source has to be analyzed.
pub open spec fn is_unsettled(
    excludes: bool,
    raw: Option<AnalysisModel>,
    exclusion: Option<ExclusionModel>,
) -> bool {
    match raw {
        Some(raw) => excludes && raw.diagnostics.len() == 0 && exclusion is None,
        None => true,
    }
}

/// Why a source could not be analyzed, or not be believed.
#[allow(inconsistent_fields)]
#[derive(Debug)]
pub enum AnalyzeError {
    /// There is no adapter for the language.
    Adapter { error: AdapterError },
    /// The analysis failed.
    Analysis { error: AnalysisError },
    /// What was kept of all code is something else.
    RawDisagrees,
    /// What was kept of leaving out test code is something else.
    ExclusionDisagrees,
    /// The result cannot be kept.
    Cache { error: CacheError },
}

/// Why a source could not be analyzed, as specifications speak of it.
#[allow(inconsistent_fields)]
pub enum AnalyzeFailure {
    Adapter { failure: AdapterFailure },
    Analysis { error: AnalysisError },
    RawDisagrees,
    ExclusionDisagrees,
    Cache { error: CacheError },
}

impl View for AnalyzeError {
    type V = AnalyzeFailure;

    open spec fn view(&self) -> AnalyzeFailure {
        match self {
            AnalyzeError::Adapter { error } => AnalyzeFailure::Adapter { failure: error@ },
            AnalyzeError::Analysis { error } => AnalyzeFailure::Analysis { error: *error },
            AnalyzeError::RawDisagrees => AnalyzeFailure::RawDisagrees,
            AnalyzeError::ExclusionDisagrees => AnalyzeFailure::ExclusionDisagrees,
            AnalyzeError::Cache { error } => AnalyzeFailure::Cache { error: *error },
        }
    }
}

/// What to tell the user of a source that could not be analyzed.
pub open spec fn analyze_message(failure: AnalyzeFailure, path: Seq<char>) -> Seq<char> {
    match failure {
        AnalyzeFailure::Adapter { failure } => adapter_message(failure),
        AnalyzeFailure::Analysis { error } => "Analyzing "@ + debug_text(path) + ": "@
            + error.text(),
        AnalyzeFailure::RawDisagrees => "Raw analysis disagrees with cached data for "@
            + debug_text(path) + "; remove it or use --no-cache"@,
        AnalyzeFailure::ExclusionDisagrees => "Test exclusion disagrees with cached data for "@
            + debug_text(path) + "; remove it or use --no-cache"@,
        AnalyzeFailure::Cache { error } => cache_message(error, path),
    }
}

impl AnalyzeError {
    /// What to tell the user, with the path of the source.
    pub fn message(&self, path: &str) -> (message: String)
        ensures
            message@ == analyze_message(self@, path@),
    {
        match self {
            AnalyzeError::Adapter { error } => error.message(),
            AnalyzeError::Analysis { error } => {
                let mut text = "Analyzing ".to_owned();
                let name = quoted(path);
                text.append(name.as_str());
                text.append(": ");
                text.append(error.message());
                text
            },
            AnalyzeError::RawDisagrees => {
                let mut text = "Raw analysis disagrees with cached data for ".to_owned();
                let name = quoted(path);
                text.append(name.as_str());
                text.append("; remove it or use --no-cache");
                text
            },
            AnalyzeError::ExclusionDisagrees => {
                let mut text = "Test exclusion disagrees with cached data for ".to_owned();
                let name = quoted(path);
                text.append(name.as_str());
                text.append("; remove it or use --no-cache");
                text
            },
            AnalyzeError::Cache { error } => error.message(path),
        }
    }
}

/// What a source comes to, given what was kept of it.
pub open spec fn settled(
    language: Language,
    oid: Seq<char>,
    source: Seq<u8>,
    excludes: bool,
    raw: Option<AnalysisModel>,
    exclusion: Option<ExclusionModel>,
) -> Result<(AnalysisModel, Option<ExclusionModel>), AnalyzeFailure> {
    match adapter_failure(language, excludes) {
        Some(failure) => Err(AnalyzeFailure::Adapter { failure }),
        None => match language_analysis(language, source, excludes) {
            Err(error) => Err(AnalyzeFailure::Analysis { error }),
            Ok(analysis) => {
                let fresh = raw_of(analysis);
                let filters = excludes && fresh.diagnostics.len() == 0;
                if raw is Some && raw->0 != fresh {
                    Err(AnalyzeFailure::RawDisagrees)
                } else if raw is None && !is_blob_id(oid) {
                    Err(AnalyzeFailure::Cache { error: CacheError::InvalidOid })
                } else if !filters {
                    Ok((fresh, exclusion))
                } else if exclusion is Some && exclusion->0 != exclusion_of(analysis) {
                    Err(AnalyzeFailure::ExclusionDisagrees)
                } else if exclusion is None && !is_blob_id(oid) {
                    Err(AnalyzeFailure::Cache { error: CacheError::InvalidOid })
                } else {
                    Ok((fresh, Some(exclusion_of(analysis))))
                }
            },
        },
    }
}

/// What is kept of a source makes no difference to what it comes to: nothing at
/// all, the analysis of all code, the filtered measurements or both lead to the
/// same results, and so does taking them without another look.
pub proof fn kept_results_make_no_difference(
    language: Language,
    oid: Seq<char>,
    source: Seq<u8>,
    excludes: bool,
    raw: Option<AnalysisModel>,
    exclusion: Option<ExclusionModel>,
    s: SnapshotModel,
    path: Seq<char>,
    ranks: Seq<u64>,
    keep: bool,
)
    requires
        is_blob_id(oid),
        adapter_failure(language, excludes) is None,
        language_analysis(language, source, excludes) is Ok,
        raw is Some ==> raw->0 == raw_of(language_analysis(language, source, excludes)->Ok_0),
        exclusion is Some ==> excludes && exclusion->0 == exclusion_of(
            language_analysis(language, source, excludes)->Ok_0,
        ),
    ensures
        ({
            let cold = settled(language, oid, source, excludes, None, None)->Ok_0;
            let warm = settled(language, oid, source, excludes, raw, exclusion)->Ok_0;
            &&& settled(language, oid, source, excludes, None, None) is Ok
            &&& settled(language, oid, source, excludes, raw, exclusion) is Ok
            &&& recorded(s, path, language, warm.0, warm.1, ranks, keep) == recorded(
                s,
                path,
                language,
                cold.0,
                cold.1,
                ranks,
                keep,
            )
            &&& !is_unsettled(excludes, raw, exclusion) ==> recorded(
                s,
                path,
                language,
                raw->0,
                exclusion,
                ranks,
                keep,
            ) == recorded(s, path, language, cold.0, cold.1, ranks, keep)
        }),
{
}

/// Where what was kept of all code disagrees with the source, nothing is kept of
/// it, and the analysis is counted.
pub proof fn disagreements_keep_nothing(
    before: Cache,
    after: Cache,
    language: Language,
    oid: Seq<char>,
    fresh: AnalysisModel,
)
    requires
        cache_without(before, after, language, oid, true, AnalyzeFailure::RawDisagrees, fresh),
    ensures
        after.memory@ == before.memory@,
        after.test_memory@ == before.test_memory@,
        after.misses == counted(before.misses),
{
}

/// The results of a fresh analysis can be recorded in a snapshot that counts test
/// code where it is left out.
pub proof fn fresh_results_can_be_recorded(
    language: Language,
    oid: Seq<char>,
    source: Seq<u8>,
    excludes: bool,
    s: SnapshotModel,
    path: Seq<char>,
    ranks: Seq<u64>,
    keep: bool,
)
    requires
        settled(language, oid, source, excludes, None, None) is Ok,
        excludes ==> s.coverage.syntax_test_files is Some,
        tests_are_counted(s.coverage),
    ensures
        ({
            let fresh = settled(language, oid, source, excludes, None, None)->Ok_0;
            recorded(s, path, language, fresh.0, fresh.1, ranks, keep) is Ok
        }),
{
}

struct Slot {
    language: Language,
    adapter: Adapter,
    policy: Option<String>,
}

/// An analysis with the filtered measurements, and which of them are new.
pub struct Analyzed {
    pub raw: Arc<FileAnalysis>,
    pub exclusion: Option<Arc<TestExclusionAnalysis>>,
    pub store_raw: bool,
    pub store_exclusion: bool,
}

/// What a source waits for before it can be recorded.
pub enum Pending {
    /// The record of its filtered measurements.
    Exclusion { policy: String, raw: Option<Arc<FileAnalysis>> },
    /// The source itself.
    Source { raw: Option<Arc<FileAnalysis>>, exclusion: Option<Arc<TestExclusionAnalysis>> },
    /// Nothing.
    Ready { analysis: Arc<FileAnalysis>, exclusion: Option<Arc<TestExclusionAnalysis>> },
}

impl Pending {
    /// What is known of all code.
    pub open spec fn known(self) -> Option<Arc<FileAnalysis>> {
        match self {
            Pending::Exclusion { raw, .. } => raw,
            Pending::Source { raw, .. } => raw,
            Pending::Ready { analysis, .. } => Some(analysis),
        }
    }

    /// What is known of leaving out test code.
    pub open spec fn filtered(self) -> Option<Arc<TestExclusionAnalysis>> {
        match self {
            Pending::Exclusion { .. } => None,
            Pending::Source { exclusion, .. } => exclusion,
            Pending::Ready { exclusion, .. } => exclusion,
        }
    }
}

/// What a source waits for when nothing more is kept of it: itself, or nothing.
pub open spec fn waits(
    excludes: bool,
    raw: Option<Arc<FileAnalysis>>,
    exclusion: Option<Arc<TestExclusionAnalysis>>,
) -> Pending {
    if is_unsettled(excludes, raw_model(raw), derived_model(exclusion)) {
        Pending::Source { raw, exclusion }
    } else {
        Pending::Ready { analysis: raw->0, exclusion }
    }
}

/// The adapters of the languages.
pub struct Adapters {
    slots: Vec<Slot>,
    excludes: bool,
}

/// The adapters of the languages, and what was analyzed before.
pub struct Analyzer {
    pub cache: Cache,
    pub adapters: Adapters,
}

spec fn slot_fits(slot: Slot, excludes: bool) -> bool {
    &&& slot.adapter.source_language() == slot.language
    &&& slot.adapter.excludes_tests() == excludes
    &&& adapter_failure(slot.language, excludes) is None
    &&& slot.policy is Some <==> excludes
    &&& slot.policy is Some ==> slot.policy->0@ == policy_fingerprint(policy_of(slot.language))
        && is_fingerprint(slot.policy->0@)
}

/// Why test code cannot be left out: the first language without an adapter.
pub open spec fn exclusion_failure(k: int) -> Option<AdapterFailure>
    decreases 6 - k,
{
    if k >= 6 {
        None
    } else {
        match adapter_failure(language_at(k), true) {
            Some(failure) => Some(failure),
            None => exclusion_failure(k + 1),
        }
    }
}

/// A fingerprint together with the test policy, as a JSON array.
pub open spec fn filtered_scope_json(fingerprint: Seq<char>) -> Seq<char> {
    "["@ + json_string(fingerprint) + ","@ + exclusion_policy_json(exclusion_policy()) + "]"@
}

/// The fingerprint of a scope or grouping, together with the test policy where
/// test code is left out.
pub open spec fn effective_fingerprint(fingerprint: Seq<char>, excludes: bool) -> Seq<char> {
    if excludes {
        text_fingerprint(filtered_scope_json(fingerprint))
    } else {
        fingerprint
    }
}

/// The cache when an analysis is in: what is new is kept, and nothing else
/// changes but the count of analyses.
pub open spec fn cache_with(
    before: Cache,
    after: Cache,
    language: Language,
    oid: Seq<char>,
    known: bool,
    result: Analyzed,
) -> bool {
    let policy = policy_fingerprint(policy_of(language));
    &&& after.directory == before.directory
    &&& after.fingerprint == before.fingerprint
    &&& after.memory_hits == before.memory_hits
    &&& after.disk_hits == before.disk_hits
    &&& after.misses == if known {
        counted(before.misses)
    } else {
        before.misses
    }
    &&& after.memory@ == if result.store_raw {
        before.memory@.insert(raw_key(language, oid), result.raw)
    } else {
        before.memory@
    }
    &&& after.test_memory@ == if result.store_exclusion {
        before.test_memory@.insert(test_key(language, oid, policy), result.exclusion->0)
    } else {
        before.test_memory@
    }
}

/// The cache when an analysis failed: nothing of leaving out test code is kept,
/// and the analysis of all code only where it is new and all that failed is that
/// what was kept of leaving out test code is something else.
pub open spec fn cache_without(
    before: Cache,
    after: Cache,
    language: Language,
    oid: Seq<char>,
    known: bool,
    failure: AnalyzeFailure,
    fresh: AnalysisModel,
) -> bool {
    &&& after.directory == before.directory
    &&& after.fingerprint == before.fingerprint
    &&& after.memory_hits == before.memory_hits
    &&& after.disk_hits == before.disk_hits
    &&& after.misses == if known {
        counted(before.misses)
    } else {
        before.misses
    }
    &&& after.test_memory@ == before.test_memory@
    &&& if !known && failure is ExclusionDisagrees {
        let key = raw_key(language, oid);
        &&& after.memory@.contains_key(key)
        &&& (*after.memory@[key])@ == fresh
        &&& after.memory@ == before.memory@.insert(key, after.memory@[key])
    } else {
        after.memory@ == before.memory@
    }
}

impl Adapters {
    /// Each language has at most one adapter here, and each has one where test
    /// code is left out.
    #[verifier::type_invariant]
    spec fn fits(self) -> bool {
        &&& forall|i: int|
            0 <= i < self.slots@.len() ==> slot_fits(#[trigger] self.slots@[i], self.excludes)
        &&& self.excludes ==> self.slots@.len() == 6 && forall|i: int|
            0 <= i < 6 ==> (#[trigger] self.slots@[i]).language == language_at(i)
    }

    /// Test code is left out.
    pub closed spec fn leaves_out_tests(&self) -> bool {
        self.excludes
    }

    /// Adapters that measure all code, made when they are needed.
    pub fn new() -> (adapters: Self)
        ensures
            !adapters.leaves_out_tests(),
    {
        Adapters { slots: Vec::new(), excludes: false }
    }

    /// Adapters that leave out test code, one for each language.
    pub fn excluding_tests() -> (result: Result<Self, AdapterError>)
        ensures
            match result {
                Ok(adapters) => exclusion_failure(0) is None && adapters.leaves_out_tests(),
                Err(error) => exclusion_failure(0) == Some(error@),
            },
    {
        let mut slots: Vec<Slot> = Vec::new();
        let mut k: usize = 0;
        while k < 6
            invariant
                k <= 6,
                slots@.len() == k,
                exclusion_failure(0) == exclusion_failure(k as int),
                forall|i: int| 0 <= i < k ==> slot_fits(#[trigger] slots@[i], true),
                forall|i: int| 0 <= i < k ==> (#[trigger] slots@[i]).language == language_at(i),
            decreases 6 - k,
        {
            let language = nth_language(k);
            let adapter = match adapter_for(language, true) {
                Ok(adapter) => adapter,
                Err(error) => {
                    return Err(error);
                },
            };
            let policy = match adapter.test_policy() {
                Some(policy) => Some(policy.fingerprint()),
                None => None,
            };
            slots.push(Slot { language, adapter, policy });
            k = k + 1;
        }
        Ok(Adapters { slots, excludes: true })
    }

    fn slot(&self, language: Language) -> (at: usize)
        ensures
            at <= self.slots@.len(),
            at < self.slots@.len() ==> self.slots@[at as int].language == language && slot_fits(
                self.slots@[at as int],
                self.excludes,
            ),
            self.excludes ==> at < self.slots@.len(),
    {
        proof {
            use_type_invariant(self);
        }
        let mut at: usize = 0;
        while at < self.slots.len() && self.slots[at].language != language
            invariant
                at <= self.slots@.len(),
                forall|i: int| 0 <= i < at ==> (#[trigger] self.slots@[i]).language != language,
            decreases self.slots@.len() - at,
        {
            at = at + 1;
        }
        proof {
            if self.excludes {
                assert(self.slots@[0].language == Language::JavaScript);
                assert(self.slots@[1].language == Language::TypeScript);
                assert(self.slots@[2].language == Language::Tsx);
                assert(self.slots@[3].language == Language::Python);
                assert(self.slots@[4].language == Language::Rust);
                assert(self.slots@[5].language == Language::Gleam);
            }
        }
        at
    }

    /// The path is that of a test that is left out.
    pub fn is_test_file(&self, language: Language, path: &str) -> (r: bool)
        ensures
            r == (self.leaves_out_tests() && is_test_path(language, path@)),
    {
        if self.excludes {
            let at: usize = self.slot(language);
            self.slots[at].adapter.is_test_file(path)
        } else {
            false
        }
    }

    /// The fingerprint of what a language takes for test code, where it is left
    /// out.
    pub fn policy(&self, language: Language) -> (policy: Option<&str>)
        ensures
            policy is Some <==> self.leaves_out_tests(),
            policy matches Some(policy) ==> policy@ == policy_fingerprint(policy_of(language))
                && is_fingerprint(policy@),
    {
        if self.excludes {
            let at: usize = self.slot(language);
            match &self.slots[at].policy {
                Some(policy) => Some(policy.as_str()),
                None => None,
            }
        } else {
            None
        }
    }

    /// Analyzes a source in a language.
    pub fn analyze(&mut self, language: Language, source: &[u8]) -> (result: Result<
        FileAnalysis,
        AnalyzeError,
    >)
        ensures
            final(self).leaves_out_tests() == old(self).leaves_out_tests(),
            match adapter_failure(language, old(self).leaves_out_tests()) {
                Some(failure) => result is Err && result->Err_0@ == (AnalyzeFailure::Adapter {
                    failure,
                }),
                None => match language_analysis(
                    language,
                    source@,
                    old(self).leaves_out_tests(),
                ) {
                    Ok(analysis) => result is Ok && result->Ok_0@ == analysis,
                    Err(error) => result is Err && result->Err_0@ == (AnalyzeFailure::Analysis {
                        error,
                    }),
                },
            },
    {
        proof {
            use_type_invariant(&*self);
        }
        let at: usize = self.slot(language);
        if at == self.slots.len() {
            let adapter = match adapter_for(language, false) {
                Ok(adapter) => adapter,
                Err(error) => {
                    return Err(AnalyzeError::Adapter { error });
                },
            };
            let mut slots: Vec<Slot> = Vec::new();
            std::mem::swap(&mut slots, &mut self.slots);
            slots.push(Slot { language, adapter, policy: None });
            self.slots = slots;
        }
        assert(slot_fits(self.slots@[at as int], self.excludes));
        match self.slots[at].adapter.analyze(source) {
            Ok(parsed) => Ok(parsed),
            Err(error) => Err(AnalyzeError::Analysis { error }),
        }
    }
}

impl Analyzer {
    /// Test code is left out.
    pub open spec fn leaves_out_tests(&self) -> bool {
        self.adapters.leaves_out_tests()
    }

    /// An analyzer of all code.
    pub fn new(cache: Cache) -> (analyzer: Self)
        ensures
            !analyzer.leaves_out_tests(),
            analyzer.cache == cache,
    {
        Analyzer { cache, adapters: Adapters::new() }
    }

    /// The analyzer with test code left out.
    pub fn exclude_tests(self) -> (result: Result<Self, AdapterError>)
        ensures
            match result {
                Ok(analyzer) => exclusion_failure(0) is None && analyzer.leaves_out_tests()
                    && analyzer.cache == self.cache,
                Err(error) => exclusion_failure(0) == Some(error@),
            },
    {
        match Adapters::excluding_tests() {
            Ok(adapters) => Ok(Analyzer { cache: self.cache, adapters }),
            Err(error) => Err(error),
        }
    }

    /// What all languages take for test code, where it is left out.
    pub fn test_exclusion(&self) -> (policy: Option<TestExclusionPolicy>)
        ensures
            policy is Some <==> self.leaves_out_tests(),
            policy matches Some(policy) ==> policy@ == exclusion_policy(),
    {
        if self.adapters.excludes {
            Some(TestExclusionPolicy::current())
        } else {
            None
        }
    }

    /// The fingerprint of a scope or grouping with the test policy.
    pub fn scope_fingerprint(&self, fingerprint: &str) -> (text: String)
        ensures
            text@ == effective_fingerprint(fingerprint@, self.leaves_out_tests()),
    {
        match self.test_exclusion() {
            Some(policy) => {
                let mut json = "[".to_owned();
                let first = json_string_text(fingerprint);
                json.append(first.as_str());
                json.append(",");
                let second = policy.json();
                json.append(second.as_str());
                json.append("]");
                text_fingerprint_of(json.as_str())
            },
            None => fingerprint.to_owned(),
        }
    }

    /// What an entry is to the measurement.
    pub fn classify(&self, entry: &TreeEntry) -> (class: EntryClass)
        ensures
            class == entry_class(entry@, self.leaves_out_tests()),
    {
        if !entry.is_regular() {
            return EntryClass::NonRegular;
        }
        match Language::for_path(entry.path.as_str()) {
            None => EntryClass::Unsupported,
            Some(language) => {
                if self.adapters.is_test_file(language, entry.path.as_str()) {
                    EntryClass::Test(language)
                } else {
                    EntryClass::Source(language)
                }
            },
        }
    }

    /// Counts an entry that is not measured. An entry that is measured is left to be
    /// analyzed in its language.
    pub fn enter(&self, accumulator: &mut SnapshotAccumulator, entry: &TreeEntry) -> (language:
        Option<Language>)
        requires
            adds_up(old(accumulator)@),
            old(accumulator)@.coverage.tracked_entries < usize::MAX,
        ensures
            adds_up(final(accumulator)@),
            sound(old(accumulator)@) ==> sound(final(accumulator)@),
            ({
                let class = entry_class(entry@, self.leaves_out_tests());
                match language {
                    Some(language) => class == EntryClass::Source(language)
                        && *final(accumulator) == *old(accumulator),
                    None => class !is Source && final(accumulator)@ == (SnapshotModel {
                        coverage: with_skipped(old(accumulator)@.coverage, entry.path@, class),
                        ..old(accumulator)@
                    }),
                }
            }),
    {
        match self.classify(entry) {
            EntryClass::Source(language) => Some(language),
            class => {
                accumulator.skip(entry, class);
                None
            },
        }
    }

    /// Counts an entry that is not measured: one outside the scope as excluded, and
    /// another one by what it is. A source in the scope is left to be analyzed in its
    /// language.
    pub fn enter_in_scope(
        &self,
        scope: &Scope,
        accumulator: &mut SnapshotAccumulator,
        entry: &TreeEntry,
    ) -> (language: Option<Language>)
        requires
            scope.wf(),
            adds_up(old(accumulator)@),
            old(accumulator)@.coverage.tracked_entries < usize::MAX,
        ensures
            adds_up(final(accumulator)@),
            sound(old(accumulator)@) ==> sound(final(accumulator)@),
            match scope_class(entry@, scope.config@, self.leaves_out_tests()) {
                None => language is None && final(accumulator)@ == (SnapshotModel {
                    coverage: with_excluded(old(accumulator)@.coverage),
                    ..old(accumulator)@
                }),
                Some(EntryClass::Source(source)) => language == Some(source) && *final(accumulator)
                    == *old(accumulator),
                Some(class) => language is None && final(accumulator)@ == (SnapshotModel {
                    coverage: with_skipped(old(accumulator)@.coverage, entry.path@, class),
                    ..old(accumulator)@
                }),
            },
    {
        if scope.contains(entry.path.as_str()) {
            self.enter(accumulator, entry)
        } else {
            accumulator.exclude();
            None
        }
    }

    fn wait(
        &self,
        raw: Option<Arc<FileAnalysis>>,
        exclusion: Option<Arc<TestExclusionAnalysis>>,
    ) -> (next: Pending)
        ensures
            next == waits(self.leaves_out_tests(), raw, exclusion),
    {
        match raw {
            Some(analysis) => {
                if self.adapters.excludes && analysis.parsed() && exclusion.is_none() {
                    Pending::Source { raw: Some(analysis), exclusion }
                } else {
                    Pending::Ready { analysis, exclusion }
                }
            },
            None => Pending::Source { raw: None, exclusion },
        }
    }

    /// Takes up what is kept of the analysis of a blob: in memory, or in the record
    /// that was found on disk.
    pub fn recall(
        &mut self,
        language: Language,
        oid: &str,
        stored: Option<Stored<FileAnalysis>>,
    ) -> (result: Result<Pending, CacheError>)
        ensures
            final(self).adapters == old(self).adapters,
            match result {
                Ok(next) => {
                    let raw = next.known();
                    let excludes = old(self).leaves_out_tests();
                    &&& raw_recalled(
                        old(self).cache,
                        final(self).cache,
                        language,
                        oid@,
                        stored,
                        Ok(raw),
                    )
                    &&& next is Exclusion <==> looks_up_exclusion(excludes, raw_model(raw))
                    &&& next matches Pending::Exclusion { policy, .. } ==> policy@
                        == policy_fingerprint(policy_of(language))
                    &&& next !is Exclusion ==> next == waits(excludes, raw, None)
                },
                Err(error) => raw_recalled(
                    old(self).cache,
                    final(self).cache,
                    language,
                    oid@,
                    stored,
                    Err(error),
                ),
            },
    {
        let raw = match self.cache.get(language, oid, stored) {
            Ok(raw) => raw,
            Err(error) => {
                return Err(error);
            },
        };
        let valid: bool = match &raw {
            Some(raw) => raw.parsed(),
            None => true,
        };
        match self.adapters.policy(language) {
            Some(policy) => {
                if valid {
                    return Ok(Pending::Exclusion { policy: policy.to_owned(), raw });
                }
            },
            None => {},
        }
        Ok(self.wait(raw, None))
    }

    /// Takes up what is kept of leaving out the test code of a blob: in memory, or
    /// in the record that was found on disk.
    pub fn recall_exclusion(
        &mut self,
        language: Language,
        oid: &str,
        policy: &str,
        raw: Option<Arc<FileAnalysis>>,
        stored: Option<Stored<TestExclusionAnalysis>>,
    ) -> (result: Result<Pending, CacheError>)
        ensures
            final(self).adapters == old(self).adapters,
            match result {
                Ok(next) => {
                    &&& exclusion_recalled(
                        old(self).cache,
                        final(self).cache,
                        language,
                        oid@,
                        policy@,
                        stored,
                        Ok(next.filtered()),
                    )
                    &&& next == waits(old(self).leaves_out_tests(), raw, next.filtered())
                },
                Err(error) => exclusion_recalled(
                    old(self).cache,
                    final(self).cache,
                    language,
                    oid@,
                    policy@,
                    stored,
                    Err(error),
                ),
            },
    {
        match self.cache.get_test_exclusion(language, oid, policy, stored) {
            Ok(exclusion) => Ok(self.wait(raw, exclusion)),
            Err(error) => Err(error),
        }
    }

    /// Analyzes a source and keeps what is new. What was kept of it must agree.
    pub fn analyze(
        &mut self,
        language: Language,
        oid: &str,
        source: &[u8],
        raw: Option<Arc<FileAnalysis>>,
        exclusion: Option<Arc<TestExclusionAnalysis>>,
    ) -> (result: Result<Analyzed, AnalyzeError>)
        ensures
            final(self).leaves_out_tests() == old(self).leaves_out_tests(),
            ({
                let model = settled(
                    language,
                    oid@,
                    source@,
                    old(self).leaves_out_tests(),
                    raw_model(raw),
                    derived_model(exclusion),
                );
                match result {
                    Ok(done) => {
                        &&& model == Ok::<
                            (AnalysisModel, Option<ExclusionModel>),
                            AnalyzeFailure,
                        >(((*done.raw)@, derived_model(done.exclusion)))
                        &&& done.store_raw == (raw is None)
                        &&& done.store_exclusion == (exclusion is None && done.exclusion is Some)
                        &&& raw is Some ==> done.raw == raw->0
                        &&& exclusion is Some ==> done.exclusion == exclusion
                        &&& cache_with(
                            old(self).cache,
                            final(self).cache,
                            language,
                            oid@,
                            raw is Some,
                            done,
                        )
                    },
                    Err(error) => {
                        &&& model == Err::<
                            (AnalysisModel, Option<ExclusionModel>),
                            AnalyzeFailure,
                        >(error@)
                        &&& cache_without(
                            old(self).cache,
                            final(self).cache,
                            language,
                            oid@,
                            raw is Some,
                            error@,
                            raw_of(
                                language_analysis(
                                    language,
                                    source@,
                                    old(self).leaves_out_tests(),
                                )->Ok_0,
                            ),
                        )
                    },
                }
            }),
    {
        if raw.is_some() {
            self.cache.misses = count(self.cache.misses);
        }
        let mut parsed = match self.adapters.analyze(language, source) {
            Ok(parsed) => parsed,
            Err(error) => {
                return Err(error);
            },
        };
        let ghost fresh = parsed@;
        proof {
            lemma_raw_without_tests(language, source@);
        }
        let derived = TestExclusionAnalysis { without_tests: parsed.without_tests };
        parsed.without_tests = None;
        assert(parsed@ =~= raw_of(fresh));
        assert(derived@ =~= exclusion_of(fresh));
        let filters: bool = self.adapters.excludes && parsed.parsed();
        let store_raw: bool = raw.is_none();
        let raw: Arc<FileAnalysis> = match raw {
            Some(raw) => {
                if !same_analysis(&*raw, &parsed) {
                    return Err(AnalyzeError::RawDisagrees);
                }
                raw
            },
            None => match self.cache.insert(language, oid, parsed) {
                Ok(kept) => kept,
                Err(error) => {
                    return Err(AnalyzeError::Cache { error });
                },
            },
        };
        if !filters {
            return Ok(Analyzed { raw, exclusion, store_raw, store_exclusion: false });
        }
        match exclusion {
            Some(exclusion) => {
                if !same_exclusion(&*exclusion, &derived) {
                    return Err(AnalyzeError::ExclusionDisagrees);
                }
                Ok(
                    Analyzed {
                        raw,
                        exclusion: Some(exclusion),
                        store_raw,
                        store_exclusion: false,
                    },
                )
            },
            None => {
                let policy = match self.adapters.policy(language) {
                    Some(policy) => policy.to_owned(),
                    None => String::new(),
                };
                match self.cache.insert_test_exclusion(language, oid, policy.as_str(), derived) {
                    Ok(kept) => Ok(
                        Analyzed {
                            raw,
                            exclusion: Some(kept),
                            store_raw,
                            store_exclusion: true,
                        },
                    ),
                    Err(error) => Err(AnalyzeError::Cache { error }),
                }
            },
        }
    }
}

proof fn lemma_raw_without_tests(language: Language, source: Seq<u8>)
    ensures
        language_analysis(language, source, false) matches Ok(analysis)
            ==> analysis.without_tests is None,
{
}

} // verus!
