//! What is kept between runs, when it is taken back, and when it is refused.

use vstd::prelude::*;

use crate::analyzer::{
    effective_fingerprint, exclusion_of, is_unsettled, looks_up_exclusion, raw_of, settled,
    AnalyzeFailure,
};
use crate::cache::{
    analyzer_bytes, counted, is_below, is_blob_id, is_hex, key_failure, raw_key, record_failure,
    record_of, record_place, test_key, CacheError, RecordModel, CACHE_SCHEMA,
};
use crate::digest::{fingerprint, is_fingerprint};
use crate::languages::adapters::{adapter_failure, language_analysis};
use crate::languages::Language;
use crate::metrics::{AnalysisModel, ExclusionModel, METRIC_VERSION};

verus! {

/// A blob is named by forty or sixty-four hexadecimal digits.
pub proof fn blob_ids(oid: Seq<char>)
    ensures
        is_blob_id(oid) <==> (oid.len() == 40 || oid.len() == 64) && forall|k: int|
            0 <= k < oid.len() ==> '0' <= #[trigger] oid[k] <= '9' || 'a' <= oid[k] <= 'f' || 'A'
                <= oid[k] <= 'F',
{
    if is_blob_id(oid) {
        assert forall|k: int| 0 <= k < oid.len() implies '0' <= #[trigger] oid[k] <= '9' || 'a'
            <= oid[k] <= 'f' || 'A' <= oid[k] <= 'F' by {
            assert(is_hex(oid[k]));
        }
    }
}

/// A key is refused for its blob first and for its test policy then.
pub proof fn keys_that_are_refused(oid: Seq<char>, policy: Seq<char>)
    ensures
        key_failure(oid, None) == Some(CacheError::InvalidOid) <==> !is_blob_id(oid),
        key_failure(oid, None) is None <==> is_blob_id(oid),
        key_failure(oid, Some(policy)) == Some(CacheError::InvalidOid) <==> !is_blob_id(oid),
        key_failure(oid, Some(policy)) == Some(CacheError::InvalidPolicy) <==> is_blob_id(oid)
            && !is_fingerprint(policy),
        key_failure(oid, Some(policy)) is None <==> is_blob_id(oid) && is_fingerprint(policy),
{
}

/// Results are kept by language and blob, filtered ones by test policy too.
pub proof fn keys_of_results(language: Language, oid: Seq<char>, policy: Seq<char>)
    ensures
        raw_key(language, oid) == language.name() + "/"@ + oid,
        test_key(language, oid, policy) == raw_key(language, oid) + "/"@ + policy,
{
}

/// A record stands in a directory of its analyzer, in one for whole or for filtered
/// results, and there by language and by the beginning of its blob's id.
pub proof fn places_of_records(
    analyzer: Seq<char>,
    language: Language,
    oid: Seq<char>,
    policy: Seq<char>,
)
    requires
        oid.len() >= 2,
    ensures
        ({
            let file = "/"@ + language.name() + "/"@ + oid.subrange(0, 2) + "/"@ + oid + ".json"@;
            &&& record_place(analyzer, language, oid, None) == analyzer + "/raw"@ + file
            &&& record_place(analyzer, language, oid, Some(policy)) == analyzer
                + "/test-exclusion/"@ + policy + file
        }),
{
    lemma_place(
        analyzer + "/raw"@,
        language.name(),
        "/"@,
        oid.subrange(0, 2),
        oid,
        ".json"@,
    );
    lemma_place(
        analyzer + ("/test-exclusion/"@ + policy),
        language.name(),
        "/"@,
        oid.subrange(0, 2),
        oid,
        ".json"@,
    );
    assert(analyzer + ("/test-exclusion/"@ + policy) =~= analyzer + "/test-exclusion/"@ + policy);
}

proof fn lemma_place(
    x: Seq<char>,
    name: Seq<char>,
    slash: Seq<char>,
    two: Seq<char>,
    oid: Seq<char>,
    end: Seq<char>,
)
    ensures
        x + slash + name + slash + two + slash + oid + end == x + (slash + name + slash + two
            + slash + oid + end),
{
    assert(x + slash + name + slash + two + slash + oid + end =~= x + (slash + name + slash + two
        + slash + oid + end));
}

/// A record names what it was made for and the digest of what it holds. It is taken back
/// only where all of that agrees.
pub proof fn records_that_are_taken_back(
    record: RecordModel,
    analyzer: Seq<char>,
    language: Language,
    oid: Seq<char>,
    policy: Option<Seq<char>>,
    payload: Seq<u8>,
)
    ensures
        CACHE_SCHEMA == 3,
        ({
            let expected = record_of(analyzer, language, oid, policy, payload);
            let same = record.schema == 3 && record.analyzer == analyzer && record.oid == oid
                && record.language == language && record.test_policy == policy;
            &&& record_failure(record, expected) is None <==> same && record.analysis_sha256
                == fingerprint(payload)
            &&& record_failure(record, expected) == Some(CacheError::Identity) <==> !same
            &&& record_failure(record, expected) == Some(CacheError::Checksum) <==> same
                && record.analysis_sha256 != fingerprint(payload)
        }),
{
}

/// A directory holds itself and what its path, a slash and more lead to; a name that
/// only begins alike is not in it.
pub proof fn directories_hold_paths(directory: Seq<char>, rest: Seq<char>, c: char)
    requires
        directory.len() > 0,
        directory.last() != '/',
    ensures
        is_below(directory, directory),
        is_below(directory + seq!['/'] + rest, directory),
        c != '/' ==> !is_below(directory + seq![c] + rest, directory),
        is_below(rest, directory) ==> rest == directory || exists|more: Seq<char>|
            rest == #[trigger] (directory + seq!['/'] + more),
{
    let below = directory + seq!['/'] + rest;
    let beside = directory + seq![c] + rest;
    let n = directory.len() as int;
    assert(below.subrange(0, n) =~= directory);
    assert(directory.subrange(0, n) =~= directory);
    assert(directory.is_prefix_of(below));
    assert(directory.is_prefix_of(directory));
    if is_below(rest, directory) && rest != directory {
        assert(directory =~= rest.subrange(0, n));
        if rest.len() == n {
            assert(rest =~= directory);
        }
        let more = rest.subrange(n + 1, rest.len() as int);
        assert(rest =~= directory + seq!['/'] + more);
    }
}

/// Hits and misses count up by one, as far as the counter goes.
pub proof fn lookups_are_counted(n: usize)
    ensures
        n < usize::MAX ==> counted(n) == n + 1,
        n == usize::MAX ==> counted(n) == n,
{
}

/// The analyzer is known by the metric, the parsers, the grammars, the schema of the
/// records and its own sources, in this order.
pub proof fn analyzers_are_known_by_their_parts(
    grammars: Seq<Seq<char>>,
    sources: Seq<crate::cache::Source>,
)
    ensures
        METRIC_VERSION@ == "erosion-v3"@,
        analyzer_bytes(grammars, sources) == vstd::utf8::encode_utf8("erosion-v3"@)
            + vstd::utf8::encode_utf8(crate::languages::PARSER_VERSIONS@)
            + crate::cache::grammar_bytes(grammars, grammars.len() as int) + seq![
            3u8,
            0u8,
            0u8,
            0u8,
        ] + crate::cache::sources_bytes(sources, sources.len() as int),
{
}

/// Filtered results are looked up only where tests are left out and the whole file is
/// valid, or not known yet. A file is analyzed where its result is not known, or not
/// known without its tests.
pub proof fn results_that_are_looked_up(
    excludes: bool,
    raw: Option<AnalysisModel>,
    exclusion: Option<ExclusionModel>,
)
    ensures
        looks_up_exclusion(excludes, raw) <==> excludes && (raw is None
            || raw->0.diagnostics.len() == 0),
        is_unsettled(excludes, raw, exclusion) <==> raw is None || (excludes
            && raw->0.diagnostics.len() == 0 && exclusion is None),
{
}

/// A fresh result must agree with what was kept of the same file, and gives the filtered
/// result where tests are left out and the file is valid.
pub proof fn fresh_results_must_agree(
    language: Language,
    oid: Seq<char>,
    source: Seq<u8>,
    excludes: bool,
    raw: Option<AnalysisModel>,
    exclusion: Option<ExclusionModel>,
)
    requires
        adapter_failure(language, excludes) is None,
        language_analysis(language, source, excludes) is Ok,
    ensures
        ({
            let analysis = language_analysis(language, source, excludes)->Ok_0;
            let found = settled(language, oid, source, excludes, raw, exclusion);
            let fresh = AnalysisModel { without_tests: None, ..analysis };
            let rest = ExclusionModel { without_tests: analysis.without_tests };
            let filters = excludes && analysis.diagnostics.len() == 0;
            &&& raw_of(analysis) == fresh && exclusion_of(analysis) == rest
            &&& raw is Some && raw->0 != fresh ==> found == Err::<
                (AnalysisModel, Option<ExclusionModel>),
                _,
            >(AnalyzeFailure::RawDisagrees)
            &&& (raw is None || raw->0 == fresh) && is_blob_id(oid) && !filters ==> found == Ok::<
                _,
                AnalyzeFailure,
            >((fresh, exclusion))
            &&& (raw is None || raw->0 == fresh) && is_blob_id(oid) && filters && (
            exclusion is None || exclusion->0 == rest) ==> found == Ok::<_, AnalyzeFailure>(
                (fresh, Some(rest)),
            )
            &&& (raw is None || raw->0 == fresh) && is_blob_id(oid) && filters
                && exclusion is Some && exclusion->0 != rest ==> found == Err::<
                (AnalysisModel, Option<ExclusionModel>),
                _,
            >(AnalyzeFailure::ExclusionDisagrees)
            &&& raw is None && !is_blob_id(oid) ==> found == Err::<
                (AnalysisModel, Option<ExclusionModel>),
                _,
            >(AnalyzeFailure::Cache { error: CacheError::InvalidOid })
        }),
{
}

/// Leaving out tests is part of what a scope is known by; otherwise its own fingerprint
/// is.
pub proof fn fingerprints_of_scopes(text: Seq<char>)
    ensures
        effective_fingerprint(text, false) == text,
        effective_fingerprint(text, true) == crate::digest::text_fingerprint(
            "["@ + crate::json::json_string(text) + ","@
                + crate::languages::policy::exclusion_policy_json(
                crate::languages::policy::exclusion_policy(),
            ) + "]"@,
        ),
{
}

} // verus!
