//! What a lookup in the cache gives back, and what it counts.

use std::sync::Arc;
use vstd::prelude::*;

use crate::analyzer::{
    cache_with, cache_without, exclusion_failure, filtered_scope_json, waits, AnalyzeFailure, Analyzed,
    Pending,
};
use crate::cache::{
    exclusion_recalled, grammar_bytes, key_failure, raw_key, raw_recalled, record_failure,
    record_of, source_bytes, sources_bytes, test_key, Cache, CacheError, Source, Stored,
};
use crate::languages::adapters::adapter_failure;
use crate::languages::policy::{
    exclusion_policy, exclusion_policy_json, language_at, policy_fingerprint, policy_of,
};
use crate::json::json_string;
use crate::languages::Language;
use crate::metrics::{AnalysisModel, FileAnalysis, TestExclusionAnalysis};

verus! {

/// A result that is in memory is given back and counts as a hit there.
pub proof fn results_in_memory(
    before: Cache,
    after: Cache,
    language: Language,
    oid: Seq<char>,
    stored: Option<Stored<FileAnalysis>>,
    result: Result<Option<Arc<FileAnalysis>>, CacheError>,
)
    requires
        raw_recalled(before, after, language, oid, stored, result),
        before.memory@.contains_key(language.name() + "/"@ + oid),
        before.memory_hits < usize::MAX,
    ensures
        result == Ok::<_, CacheError>(Some(before.memory@[language.name() + "/"@ + oid])),
        after.memory_hits == before.memory_hits + 1,
        after.disk_hits == before.disk_hits,
        after.misses == before.misses,
        after.memory@ == before.memory@,
{
}

/// A result that is nowhere counts as a miss.
pub proof fn results_that_are_missing(
    before: Cache,
    after: Cache,
    language: Language,
    oid: Seq<char>,
    result: Result<Option<Arc<FileAnalysis>>, CacheError>,
)
    requires
        raw_recalled(before, after, language, oid, None, result),
        !before.memory@.contains_key(language.name() + "/"@ + oid),
        key_failure(oid, None) is None,
        before.misses < usize::MAX,
    ensures
        result == Ok::<Option<Arc<FileAnalysis>>, CacheError>(None),
        after.misses == before.misses + 1,
        after.memory_hits == before.memory_hits,
        after.disk_hits == before.disk_hits,
        after.memory@ == before.memory@,
{
}

/// A stored result is given back where its record agrees, is kept in memory, and counts
/// as a hit on disk. A record that does not agree is refused, as is a whole result that
/// holds a filtered one; that changes nothing.
pub proof fn results_on_disk(
    before: Cache,
    after: Cache,
    language: Language,
    oid: Seq<char>,
    stored: Stored<FileAnalysis>,
    result: Result<Option<Arc<FileAnalysis>>, CacheError>,
)
    requires
        raw_recalled(before, after, language, oid, Some(stored), result),
        !before.memory@.contains_key(raw_key(language, oid)),
        key_failure(oid, None) is None,
        before.disk_hits < usize::MAX,
    ensures
        ({
            let failure = record_failure(
                stored.record@,
                record_of(before.fingerprint@, language, oid, None, stored.payload@),
            );
            let holds_tests = stored.analysis.without_tests is Some;
            &&& failure is Some ==> result is Err && result->Err_0 == failure->0 && after == before
            &&& failure is None && holds_tests ==> result is Err && result->Err_0
                == CacheError::RawHoldsTests && after == before
            &&& failure is None && !holds_tests ==> {
                &&& result is Ok && result->Ok_0 is Some && *result->Ok_0->0 == stored.analysis
                &&& after.disk_hits == before.disk_hits + 1
                &&& after.memory_hits == before.memory_hits && after.misses == before.misses
                &&& after.memory@.contains_key(raw_key(language, oid))
                &&& after.test_memory@ == before.test_memory@
            }
        }),
{
}

/// A filtered result is looked up in the same way, and one that is nowhere counts as
/// nothing.
pub proof fn filtered_results_are_recalled(
    before: Cache,
    after: Cache,
    language: Language,
    oid: Seq<char>,
    policy: Seq<char>,
    stored: Option<Stored<TestExclusionAnalysis>>,
    result: Result<Option<Arc<TestExclusionAnalysis>>, CacheError>,
)
    requires
        exclusion_recalled(before, after, language, oid, policy, stored, result),
        before.memory_hits < usize::MAX,
        before.disk_hits < usize::MAX,
    ensures
        ({
            let key = test_key(language, oid, policy);
            let known = before.test_memory@.contains_key(key);
            let invalid = key_failure(oid, Some(policy));
            let failure = record_failure(
                stored->0.record@,
                record_of(
                    before.fingerprint@,
                    language,
                    oid,
                    Some(policy),
                    stored->0.payload@,
                ),
            );
            &&& known ==> result is Ok && result->Ok_0 == Some(before.test_memory@[key])
                && after.memory_hits == before.memory_hits + 1
            &&& !known && invalid is Some ==> result is Err && result->Err_0 == invalid->0 && after
                == before
            &&& !known && invalid is None && stored is None ==> result is Ok
                && result->Ok_0 is None && after == before
            &&& !known && invalid is None && stored is Some && failure is Some ==> result is Err
                && result->Err_0 == failure->0 && after == before
            &&& !known && invalid is None && stored is Some && failure is None ==> {
                &&& result is Ok && result->Ok_0 is Some && *result->Ok_0->0 == stored->0.analysis
                &&& after.disk_hits == before.disk_hits + 1
                &&& after.memory_hits == before.memory_hits && after.misses == before.misses
                &&& after.memory@ == before.memory@
                &&& after.test_memory@.contains_key(key)
            }
        }),
{
}

/// A source is part of the analyzer by its path and its text, each with a null byte
/// behind it, in the order of the sources.
pub proof fn sources_make_the_analyzer(
    source: Source,
    sources: Seq<Source>,
    grammars: Seq<Seq<char>>,
    n: int,
)
    ensures
        source_bytes(source) == vstd::utf8::encode_utf8(source.path@) + seq![0u8]
            + vstd::utf8::encode_utf8(source.text@) + seq![0u8],
        sources_bytes(sources, 0).len() == 0,
        grammar_bytes(grammars, 0).len() == 0,
        0 <= n < sources.len() ==> sources_bytes(sources, n + 1) == sources_bytes(sources, n)
            + source_bytes(sources[n]),
        0 <= n < grammars.len() ==> grammar_bytes(grammars, n + 1) == grammar_bytes(grammars, n)
            + vstd::utf8::encode_utf8(grammars[n]),
{
}

/// An analysis that is new is kept under its key, in memory, and nothing else is; hits
/// are not counted.
pub proof fn analyses_are_kept(
    before: Cache,
    after: Cache,
    language: Language,
    oid: Seq<char>,
    known: bool,
    result: Analyzed,
)
    requires
        cache_with(before, after, language, oid, known, result),
    ensures
        after.memory_hits == before.memory_hits,
        after.disk_hits == before.disk_hits,
        after.fingerprint == before.fingerprint,
        after.directory == before.directory,
        !known ==> after.misses == before.misses,
        known && before.misses < usize::MAX ==> after.misses == before.misses + 1,
        result.store_raw ==> after.memory@ == before.memory@.insert(
            language.name() + "/"@ + oid,
            result.raw,
        ),
        !result.store_raw ==> after.memory@ == before.memory@,
        result.store_exclusion ==> after.test_memory@ == before.test_memory@.insert(
            test_key(language, oid, policy_fingerprint(policy_of(language))),
            result.exclusion->0,
        ),
        !result.store_exclusion ==> after.test_memory@ == before.test_memory@,
{
}

/// Of an analysis that failed nothing is kept, but for one of all code that is new where
/// only the record of the filtered one disagreed.
pub proof fn failed_analyses_are_not_kept(
    before: Cache,
    after: Cache,
    language: Language,
    oid: Seq<char>,
    known: bool,
    failure: AnalyzeFailure,
    fresh: AnalysisModel,
)
    requires
        cache_without(before, after, language, oid, known, failure, fresh),
    ensures
        after.memory_hits == before.memory_hits,
        after.disk_hits == before.disk_hits,
        after.test_memory@ == before.test_memory@,
        known || !(failure is ExclusionDisagrees) ==> after.memory@ == before.memory@,
        !known && failure is ExclusionDisagrees ==> {
            let key = language.name() + "/"@ + oid;
            &&& after.memory@.contains_key(key)
            &&& (*after.memory@[key])@ == fresh
            &&& after.memory@.remove(key) == before.memory@.remove(key)
        },
{
}

/// A source is read where its analysis is unknown, or where it is valid, tests are left
/// out, and what is left is unknown. Any other is settled by what is known.
pub proof fn sources_that_are_read(
    excludes: bool,
    raw: Option<Arc<FileAnalysis>>,
    exclusion: Option<Arc<TestExclusionAnalysis>>,
)
    ensures
        ({
            let valid = raw is Some && (*raw->0)@.diagnostics.len() == 0;
            let read = raw is None || excludes && valid && exclusion is None;
            &&& read ==> waits(excludes, raw, exclusion) == (Pending::Source { raw, exclusion })
            &&& !read ==> waits(excludes, raw, exclusion) == (Pending::Ready {
                analysis: raw->0,
                exclusion,
            })
        }),
{
}

/// A scope that leaves out tests is described by its own description and by the policy
/// of leaving them out, in this order.
pub proof fn filtered_scopes_name_their_policy(fingerprint: Seq<char>)
    ensures
        filtered_scope_json(fingerprint) == "["@ + json_string(fingerprint) + ","@
            + exclusion_policy_json(exclusion_policy()) + "]"@,
{
}

/// Tests can be left out where every language can be measured without them; the first
/// that cannot decides.
pub proof fn every_language_is_prepared(k: int)
    requires
        0 <= k < 6,
    ensures
        exclusion_failure(6) is None,
        adapter_failure(language_at(k), true) is Some ==> exclusion_failure(k) == adapter_failure(
            language_at(k),
            true,
        ),
        adapter_failure(language_at(k), true) is None ==> exclusion_failure(k)
            == exclusion_failure(k + 1),
{
}

} // verus!
