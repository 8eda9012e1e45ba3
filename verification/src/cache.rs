//! Analyses that are kept, in memory and as records on disk.
//!
//! An analysis belongs to a blob and a language. What leaving out test code came
//! to is kept apart from it, under the fingerprint of the language's test policy.
//! A record on disk says what it belongs to and holds the digest of its payload;
//! one that does not fit is an error and never a miss.

use std::sync::Arc;
use vstd::hash_map::StringHashMap;
use vstd::prelude::*;
use vstd::string::*;

use crate::digest::{
    fingerprint, fingerprint_of, is_fingerprint, is_lower_hex,
};
use crate::format::{optional, optional_str, texts};
use crate::languages::{names_are_distinct, Language, PARSER_VERSIONS};
use crate::metrics::{FileAnalysis, TestExclusionAnalysis, METRIC_VERSION};
use crate::text::{find_char, same};

verus! {

/// The version of the records' layout.
pub const CACHE_SCHEMA: u32 = 3;

/// Calls `Arc::clone`, which gives another pointer to the same value.
#[verifier::external_body]
fn share<T>(value: &Arc<T>) -> (shared: Arc<T>)
    ensures
        shared == *value,
{
    Arc::clone(value)
}

/// What a record on disk belongs to, and the digest of its payload.
#[derive(Debug)]
pub struct Record {
    pub schema: u32,
    pub analyzer: String,
    pub oid: String,
    pub language: Language,
    pub test_policy: Option<String>,
    pub analysis_sha256: String,
}

pub struct RecordModel {
    pub schema: u32,
    pub analyzer: Seq<char>,
    pub oid: Seq<char>,
    pub language: Language,
    pub test_policy: Option<Seq<char>>,
    pub analysis_sha256: Seq<char>,
}

impl View for Record {
    type V = RecordModel;

    open spec fn view(&self) -> RecordModel {
        RecordModel {
            schema: self.schema,
            analyzer: self.analyzer@,
            oid: self.oid@,
            language: self.language,
            test_policy: optional(self.test_policy),
            analysis_sha256: self.analysis_sha256@,
        }
    }
}

/// A record as it was read: with its payload and the analysis in it.
pub struct Stored<T> {
    pub record: Record,
    pub payload: Vec<u8>,
    pub analysis: T,
}

/// Why a cache does not answer.
#[derive(Clone, Copy, Debug, PartialEq, Eq, Structural)]
pub enum CacheError {
    /// There is no directory for the cache.
    NoDirectory,
    /// The cache would lie in the measured repository.
    InsideRepository,
    /// The text is no object id.
    InvalidOid,
    /// The text is no fingerprint of a test policy.
    InvalidPolicy,
    /// The record belongs to something else.
    Identity,
    /// The payload is not the one that was written.
    Checksum,
    /// The record of an analysis of all code holds filtered measurements.
    RawHoldsTests,
    /// Filtered measurements are not kept with an analysis of all code.
    CannotStoreTests,
}

/// What to tell the user of a cache that does not answer, with the path of the
/// record that it was asked for.
pub open spec fn cache_message(error: CacheError, path: Seq<char>) -> Seq<char> {
    match error {
        CacheError::NoDirectory =>
            "No user cache directory available; use --cache-dir or --no-cache"@,
        CacheError::InsideRepository =>
            "Cache must be outside the measured repository; use --cache-dir or --no-cache"@,
        CacheError::InvalidOid => "Invalid blob object ID"@,
        CacheError::InvalidPolicy => "Invalid test-policy fingerprint"@,
        CacheError::Identity => "Cache identity mismatch at "@ + path
            + "; remove it or use --no-cache"@,
        CacheError::Checksum => "Cache payload checksum mismatch at "@ + path
            + "; remove it or use --no-cache"@,
        CacheError::RawHoldsTests =>
            "Raw cache contains test-exclusion analysis; remove it or use --no-cache"@,
        CacheError::CannotStoreTests => "Cannot store test-exclusion analysis in the raw cache"@,
    }
}

impl CacheError {
    /// What to tell the user, with the path of the record that was asked for.
    pub fn message(&self, path: &str) -> (message: String)
        ensures
            message@ == cache_message(*self, path@),
    {
        match self {
            CacheError::NoDirectory =>
                "No user cache directory available; use --cache-dir or --no-cache".to_owned(),
            CacheError::InsideRepository =>
                "Cache must be outside the measured repository; use --cache-dir or --no-cache".to_owned(),
            CacheError::InvalidOid => "Invalid blob object ID".to_owned(),
            CacheError::InvalidPolicy => "Invalid test-policy fingerprint".to_owned(),
            CacheError::Identity => {
                let mut text = "Cache identity mismatch at ".to_owned();
                text.append(path);
                text.append("; remove it or use --no-cache");
                text
            },
            CacheError::Checksum => {
                let mut text = "Cache payload checksum mismatch at ".to_owned();
                text.append(path);
                text.append("; remove it or use --no-cache");
                text
            },
            CacheError::RawHoldsTests =>
                "Raw cache contains test-exclusion analysis; remove it or use --no-cache".to_owned(),
            CacheError::CannotStoreTests =>
                "Cannot store test-exclusion analysis in the raw cache".to_owned(),
        }
    }
}

/// A name and a text that the analyzer is made of.
pub struct Source {
    pub path: String,
    pub text: String,
}

pub open spec fn source_bytes(source: Source) -> Seq<u8> {
    vstd::utf8::encode_utf8(source.path@) + seq![0u8] + vstd::utf8::encode_utf8(source.text@)
        + seq![0u8]
}

/// What the first `n` grammars add to the identity of the analyzer.
pub open spec fn grammar_bytes(grammars: Seq<Seq<char>>, n: int) -> Seq<u8>
    decreases n,
{
    if n <= 0 {
        Seq::empty()
    } else {
        grammar_bytes(grammars, n - 1) + vstd::utf8::encode_utf8(grammars[n - 1])
    }
}

/// What the first `n` sources add to the identity of the analyzer.
pub open spec fn sources_bytes(sources: Seq<Source>, n: int) -> Seq<u8>
    decreases n,
{
    if n <= 0 {
        Seq::empty()
    } else {
        sources_bytes(sources, n - 1) + source_bytes(sources[n - 1])
    }
}

/// What makes up the identity of the analyzer: the metric, the grammars, the
/// layout of records and the sources.
pub open spec fn analyzer_bytes(grammars: Seq<Seq<char>>, sources: Seq<Source>) -> Seq<u8> {
    vstd::utf8::encode_utf8(METRIC_VERSION@) + vstd::utf8::encode_utf8(PARSER_VERSIONS@)
        + grammar_bytes(grammars, grammars.len() as int) + seq![3u8, 0u8, 0u8, 0u8]
        + sources_bytes(sources, sources.len() as int)
}

fn add_bytes(bytes: &mut Vec<u8>, text: &str)
    ensures
        final(bytes)@ == old(bytes)@ + text.spec_bytes(),
{
    let added: &[u8] = text.as_bytes();
    let mut k: usize = 0;
    let ghost start = bytes@;
    assert(start + added@.subrange(0, 0) =~= start);
    while k < added.len()
        invariant
            k <= added@.len(),
            bytes@ == start + added@.subrange(0, k as int),
        decreases added@.len() - k,
    {
        bytes.push(added[k]);
        k = k + 1;
        assert(bytes@ =~= start + added@.subrange(0, k as int));
    }
    assert(added@.subrange(0, k as int) =~= added@);
}

/// What tells one analyzer from another.
pub fn analyzer_fingerprint(grammars: &Vec<String>, sources: &Vec<Source>) -> (text: String)
    ensures
        text@ == fingerprint(analyzer_bytes(texts(grammars@), sources@)),
        is_fingerprint(text@),
{
    let ghost names = texts(grammars@);
    let mut bytes: Vec<u8> = Vec::new();
    add_bytes(&mut bytes, METRIC_VERSION);
    add_bytes(&mut bytes, PARSER_VERSIONS);
    let ghost head = bytes@;
    assert(head =~= vstd::utf8::encode_utf8(METRIC_VERSION@) + vstd::utf8::encode_utf8(
        PARSER_VERSIONS@,
    ));
    assert(head + grammar_bytes(names, 0) =~= head);
    let mut k: usize = 0;
    while k < grammars.len()
        invariant
            names == texts(grammars@),
            k <= grammars@.len(),
            bytes@ == head + grammar_bytes(names, k as int),
        decreases grammars@.len() - k,
    {
        assert(names[k as int] == grammars@[k as int]@);
        add_bytes(&mut bytes, grammars[k].as_str());
        k = k + 1;
        assert(bytes@ =~= head + grammar_bytes(names, k as int));
    }
    bytes.push(3);
    bytes.push(0);
    bytes.push(0);
    bytes.push(0);
    let ghost middle = bytes@;
    assert(middle =~= head + grammar_bytes(names, names.len() as int) + seq![3u8, 0u8, 0u8, 0u8]);
    assert(middle + sources_bytes(sources@, 0) =~= middle);
    let mut n: usize = 0;
    while n < sources.len()
        invariant
            n <= sources@.len(),
            bytes@ == middle + sources_bytes(sources@, n as int),
        decreases sources@.len() - n,
    {
        let ghost before = bytes@;
        add_bytes(&mut bytes, sources[n].path.as_str());
        bytes.push(0);
        add_bytes(&mut bytes, sources[n].text.as_str());
        bytes.push(0);
        assert(bytes@ =~= before + source_bytes(sources@[n as int]));
        n = n + 1;
        assert(bytes@ =~= middle + sources_bytes(sources@, n as int));
    }
    fingerprint_of(bytes.as_slice())
}

/// The character is a hexadecimal digit.
pub open spec fn is_hex(c: char) -> bool {
    is_lower_hex(c) || 'A' <= c <= 'F'
}

/// The text can name a blob: 40 or 64 hexadecimal digits.
pub open spec fn is_blob_id(oid: Seq<char>) -> bool {
    (oid.len() == 40 || oid.len() == 64) && forall|k: int|
        0 <= k < oid.len() ==> is_hex(#[trigger] oid[k])
}

fn valid_blob_id(oid: &str) -> (r: bool)
    ensures
        r == is_blob_id(oid@),
{
    let length: usize = oid.unicode_len();
    if length != 40 && length != 64 {
        return false;
    }
    let mut k: usize = 0;
    while k < length
        invariant
            k <= length == oid@.len(),
            forall|n: int| 0 <= n < k ==> is_hex(#[trigger] oid@[n]),
        decreases length - k,
    {
        let c: char = oid.get_char(k);
        if !(('0' <= c && c <= '9') || ('a' <= c && c <= 'f') || ('A' <= c && c <= 'F')) {
            assert(!is_hex(oid@[k as int]));
            return false;
        }
        k = k + 1;
    }
    true
}

fn valid_policy(policy: &str) -> (r: bool)
    ensures
        r == is_fingerprint(policy@),
{
    if policy.unicode_len() != 64 {
        return false;
    }
    let mut k: usize = 0;
    while k < 64
        invariant
            k <= 64 == policy@.len(),
            forall|n: int| 0 <= n < k ==> is_lower_hex(#[trigger] policy@[n]),
        decreases 64 - k,
    {
        let c: char = policy.get_char(k);
        if !(('0' <= c && c <= '9') || ('a' <= c && c <= 'f')) {
            assert(!is_lower_hex(policy@[k as int]));
            return false;
        }
        k = k + 1;
    }
    true
}

/// What is wrong with what an analysis should belong to, where anything is.
pub open spec fn key_failure(oid: Seq<char>, policy: Option<Seq<char>>) -> Option<CacheError> {
    if !is_blob_id(oid) {
        Some(CacheError::InvalidOid)
    } else {
        match policy {
            Some(policy) => if is_fingerprint(policy) {
                None
            } else {
                Some(CacheError::InvalidPolicy)
            },
            None => None,
        }
    }
}

fn check_key(oid: &str, policy: Option<&str>) -> (result: Result<(), CacheError>)
    ensures
        match result {
            Ok(()) => key_failure(oid@, optional_str(policy)) is None,
            Err(error) => key_failure(oid@, optional_str(policy)) == Some(error),
        },
{
    if !valid_blob_id(oid) {
        return Err(CacheError::InvalidOid);
    }
    match policy {
        Some(policy) => {
            if valid_policy(policy) {
                Ok(())
            } else {
                Err(CacheError::InvalidPolicy)
            }
        },
        None => Ok(()),
    }
}

/// Under what an analysis of all code is kept in memory.
pub open spec fn raw_key(language: Language, oid: Seq<char>) -> Seq<char> {
    language.name() + "/"@ + oid
}

/// Under what filtered measurements are kept in memory.
pub open spec fn test_key(language: Language, oid: Seq<char>, policy: Seq<char>) -> Seq<char> {
    language.name() + "/"@ + oid + "/"@ + policy
}

fn raw_key_text(language: Language, oid: &str) -> (key: String)
    ensures
        key@ == raw_key(language, oid@),
{
    let mut key = language.id().to_owned();
    key.append("/");
    key.append(oid);
    key
}

fn test_key_text(language: Language, oid: &str, policy: &str) -> (key: String)
    ensures
        key@ == test_key(language, oid@, policy@),
{
    let mut key = raw_key_text(language, oid);
    key.append("/");
    key.append(policy);
    key
}

/// Where a record stands below the directory of the cache.
pub open spec fn record_place(
    analyzer: Seq<char>,
    language: Language,
    oid: Seq<char>,
    policy: Option<Seq<char>>,
) -> Seq<char> {
    let layer = match policy {
        Some(policy) => "/test-exclusion/"@ + policy,
        None => "/raw"@,
    };
    analyzer + layer + "/"@ + language.name() + "/"@ + oid.subrange(0, 2) + "/"@ + oid + ".json"@
}

/// The record of a payload.
pub open spec fn record_of(
    analyzer: Seq<char>,
    language: Language,
    oid: Seq<char>,
    policy: Option<Seq<char>>,
    payload: Seq<u8>,
) -> RecordModel {
    RecordModel {
        schema: CACHE_SCHEMA,
        analyzer,
        oid,
        language,
        test_policy: policy,
        analysis_sha256: fingerprint(payload),
    }
}

/// What is wrong with a record, where anything is.
pub open spec fn record_failure(record: RecordModel, expected: RecordModel) -> Option<CacheError> {
    if record.schema != expected.schema || record.analyzer != expected.analyzer || record.oid
        != expected.oid || record.language != expected.language || record.test_policy
        != expected.test_policy {
        Some(CacheError::Identity)
    } else if record.analysis_sha256 != expected.analysis_sha256 {
        Some(CacheError::Checksum)
    } else {
        None
    }
}

/// A read accepts a record exactly where it is the one that a write of the same
/// payload under the same key makes. Whatever else it holds is refused.
pub proof fn reads_accept_what_writes_make(
    record: RecordModel,
    analyzer: Seq<char>,
    language: Language,
    oid: Seq<char>,
    policy: Option<Seq<char>>,
    payload: Seq<u8>,
)
    ensures
        record_failure(record, record_of(analyzer, language, oid, policy, payload)) is None
            <==> record == record_of(analyzer, language, oid, policy, payload),
{
}

proof fn lemma_slash(s: Seq<char>, t: Seq<char>, at: int)
    requires
        0 <= at <= s.len(),
        forall|k: int| 0 <= k < s.len() ==> #[trigger] s[k] != '/',
    ensures
        find_char(s + "/"@ + t, '/', at) == s.len(),
    decreases s.len() - at,
{
    reveal_strlit("/");
    let whole = s + "/"@ + t;
    if at < s.len() {
        assert(whole[at] == s[at]);
        lemma_slash(s, t, at + 1);
    } else {
        assert(whole[at] == '/');
    }
}

proof fn lemma_name_has_no_slash(language: Language)
    ensures
        forall|k: int| 0 <= k < language.name().len() ==> #[trigger] language.name()[k] != '/',
{
    reveal_strlit("javascript");
    reveal_strlit("typescript");
    reveal_strlit("tsx");
    reveal_strlit("python");
    reveal_strlit("rust");
    reveal_strlit("gleam");
}

/// Analyses of different blobs or in different languages are kept apart.
pub proof fn raw_keys_are_distinct(a: Language, x: Seq<char>, b: Language, y: Seq<char>)
    requires
        raw_key(a, x) == raw_key(b, y),
    ensures
        a == b,
        x == y,
{
    reveal_strlit("/");
    lemma_name_has_no_slash(a);
    lemma_name_has_no_slash(b);
    lemma_slash(a.name(), x, 0);
    lemma_slash(b.name(), y, 0);
    let n = a.name().len() as int;
    assert(raw_key(a, x).subrange(0, n) =~= a.name());
    assert(raw_key(b, y).subrange(0, n) =~= b.name());
    names_are_distinct(a, b);
    let end = raw_key(a, x).len() as int;
    assert(raw_key(a, x).subrange(n + 1, end) =~= x);
    assert(raw_key(b, y).subrange(n + 1, end) =~= y);
}

/// The end of a record's place, behind the layer and a slash.
spec fn place_end(language: Language, oid: Seq<char>) -> Seq<char> {
    raw_key(language, oid.subrange(0, 2) + "/"@ + oid + ".json"@)
}

proof fn lemma_place_end(a: Language, x: Seq<char>, b: Language, y: Seq<char>)
    requires
        is_blob_id(x),
        is_blob_id(y),
        place_end(a, x) == place_end(b, y),
    ensures
        a == b,
        x == y,
{
    reveal_strlit("/");
    reveal_strlit(".json");
    let from = x.subrange(0, 2) + "/"@ + x + ".json"@;
    let to = y.subrange(0, 2) + "/"@ + y + ".json"@;
    raw_keys_are_distinct(a, from, b, to);
    let n = x.len() as int;
    assert(from.subrange(3, 3 + n) =~= x);
    assert(to.subrange(3, 3 + n) =~= y);
}

/// Records of different blobs, languages or policies stand in different places,
/// and those of all code apart from those without test code.
pub proof fn record_places_are_distinct(
    analyzer: Seq<char>,
    a: Language,
    x: Seq<char>,
    p: Option<Seq<char>>,
    b: Language,
    y: Seq<char>,
    q: Option<Seq<char>>,
)
    requires
        key_failure(x, p) is None,
        key_failure(y, q) is None,
        record_place(analyzer, a, x, p) == record_place(analyzer, b, y, q),
    ensures
        a == b,
        x == y,
        p == q,
{
    reveal_strlit("/");
    reveal_strlit("/raw");
    reveal_strlit("/test-exclusion/");
    let n = analyzer.len() as int;
    let from = record_place(analyzer, a, x, p);
    let to = record_place(analyzer, b, y, q);
    let end = from.len() as int;
    assert(from[n + 1] == if p is Some { 't' } else { 'r' });
    assert(to[n + 1] == if q is Some { 't' } else { 'r' });
    if p is Some {
        assert(from.subrange(n + 16, n + 80) =~= p->0);
        assert(to.subrange(n + 16, n + 80) =~= q->0);
        assert(from.subrange(n + 81, end) =~= place_end(a, x));
        assert(to.subrange(n + 81, end) =~= place_end(b, y));
    } else {
        assert(from.subrange(n + 5, end) =~= place_end(a, x));
        assert(to.subrange(n + 5, end) =~= place_end(b, y));
    }
    lemma_place_end(a, x, b, y);
}

/// Filtered measurements are found again only under the blob, the language and the
/// policy that they were kept under, whatever is asked for.
pub proof fn test_keys_are_distinct(
    a: Language,
    x: Seq<char>,
    p: Seq<char>,
    b: Language,
    y: Seq<char>,
    q: Seq<char>,
)
    requires
        is_blob_id(x),
        is_fingerprint(p),
        test_key(a, x, p) == test_key(b, y, q),
    ensures
        a == b,
        x == y,
        p == q,
{
    reveal_strlit("/");
    let whole = x + "/"@ + p;
    let other = y + "/"@ + q;
    assert(test_key(a, x, p) =~= raw_key(a, whole));
    assert(test_key(b, y, q) =~= raw_key(b, other));
    raw_keys_are_distinct(a, whole, b, other);
    let n = x.len() as int;
    assert forall|k: int| 0 <= k < whole.len() && #[trigger] whole[k] == '/' implies k == n by {
        if k < n {
            assert(is_hex(x[k]));
        } else if k > n {
            assert(whole[k] == p[k - n - 1]);
        }
    }
    assert(other[y.len() as int] == '/');
    assert(whole.subrange(0, n) =~= x);
    assert(other.subrange(0, n) =~= y);
    assert(whole.subrange(n + 1, whole.len() as int) =~= p);
    assert(other.subrange(n + 1, other.len() as int) =~= q);
}

/// Analyses that are kept.
pub struct Cache {
    pub directory: Option<String>,
    pub fingerprint: String,
    pub memory: StringHashMap<Arc<FileAnalysis>>,
    pub test_memory: StringHashMap<Arc<TestExclusionAnalysis>>,
    pub memory_hits: usize,
    pub disk_hits: usize,
    pub misses: usize,
}

/// One more, as far as a counter reaches.
pub open spec fn counted(n: usize) -> usize {
    if n < usize::MAX {
        (n + 1) as usize
    } else {
        n
    }
}

/// One more, as far as a counter reaches.
pub fn count(n: usize) -> (next: usize)
    ensures
        next == counted(n),
{
    if n < usize::MAX {
        n + 1
    } else {
        n
    }
}

/// The first path is the second one or lies below it.
pub open spec fn is_below(path: Seq<char>, directory: Seq<char>) -> bool {
    directory.is_prefix_of(path) && (path.len() == directory.len() || (directory.len() > 0
        && directory.last() == '/') || path[directory.len() as int] == '/')
}

fn lies_below(path: &str, directory: &str) -> (r: bool)
    ensures
        r == is_below(path@, directory@),
{
    if !crate::text::starts_with(path, directory) {
        return false;
    }
    let n: usize = directory.unicode_len();
    path.unicode_len() == n || (n > 0 && directory.get_char(n - 1) == '/') || path.get_char(n)
        == '/'
}

/// What a lookup of an analysis of all code returns and changes.
pub open spec fn raw_recalled(
    before: Cache,
    after: Cache,
    language: Language,
    oid: Seq<char>,
    stored: Option<Stored<FileAnalysis>>,
    result: Result<Option<Arc<FileAnalysis>>, CacheError>,
) -> bool {
    let key = raw_key(language, oid);
    if before.memory@.contains_key(key) {
        &&& result matches Ok(Some(found)) && found == before.memory@[key]
        &&& after.keeps_all(before)
        &&& after.memory_hits == counted(before.memory_hits)
        &&& after.disk_hits == before.disk_hits && after.misses == before.misses
    } else if key_failure(oid, None) is Some {
        &&& result matches Err(error) && key_failure(oid, None) == Some(error)
        &&& after == before
    } else {
        match stored {
            None => {
                &&& result matches Ok(None)
                &&& after.keeps_all(before)
                &&& after.misses == counted(before.misses)
                &&& after.memory_hits == before.memory_hits && after.disk_hits
                    == before.disk_hits
            },
            Some(stored) => {
                let failure = record_failure(
                    stored.record@,
                    record_of(
                        before.fingerprint@,
                        language,
                        oid,
                        None,
                        stored.payload@,
                    ),
                );
                if failure is Some {
                    &&& result matches Err(error) && failure == Some(error)
                    &&& after == before
                } else if stored.analysis.without_tests is Some {
                    &&& result matches Err(error) && error
                        == CacheError::RawHoldsTests
                    &&& after == before
                } else {
                    &&& result matches Ok(Some(found)) && *found == stored.analysis
                        && after.memory@ == before.memory@.insert(key, found)
                    &&& after.test_memory@ == before.test_memory@
                    &&& after.directory == before.directory && after.fingerprint
                        == before.fingerprint
                    &&& after.disk_hits == counted(before.disk_hits)
                    &&& after.memory_hits == before.memory_hits && after.misses
                        == before.misses
                }
            },
        }
    }
}

/// What a lookup of filtered measurements returns and changes.
pub open spec fn exclusion_recalled(
    before: Cache,
    after: Cache,
    language: Language,
    oid: Seq<char>,
    policy: Seq<char>,
    stored: Option<Stored<TestExclusionAnalysis>>,
    result: Result<Option<Arc<TestExclusionAnalysis>>, CacheError>,
) -> bool {
    let key = test_key(language, oid, policy);
    let invalid = key_failure(oid, Some(policy));
    if before.test_memory@.contains_key(key) {
        &&& result matches Ok(Some(found)) && found == before.test_memory@[key]
        &&& after.keeps_all(before)
        &&& after.memory_hits == counted(before.memory_hits)
        &&& after.disk_hits == before.disk_hits && after.misses == before.misses
    } else if invalid is Some {
        &&& result matches Err(error) && invalid == Some(error)
        &&& after == before
    } else {
        match stored {
            None => {
                &&& result matches Ok(None)
                &&& after == before
            },
            Some(stored) => {
                let failure = record_failure(
                    stored.record@,
                    record_of(
                        before.fingerprint@,
                        language,
                        oid,
                        Some(policy),
                        stored.payload@,
                    ),
                );
                if failure is Some {
                    &&& result matches Err(error) && failure == Some(error)
                    &&& after == before
                } else {
                    &&& result matches Ok(Some(found)) && *found == stored.analysis
                        && after.test_memory@ == before.test_memory@.insert(key, found)
                    &&& after.memory@ == before.memory@
                    &&& after.directory == before.directory && after.fingerprint
                        == before.fingerprint
                    &&& after.disk_hits == counted(before.disk_hits)
                    &&& after.memory_hits == before.memory_hits && after.misses
                        == before.misses
                }
            },
        }
    }
}

impl Cache {
    /// What is kept in memory and on disk is the same as before.
    pub open spec fn keeps_all(&self, before: Cache) -> bool {
        &&& self.directory == before.directory
        &&& self.fingerprint == before.fingerprint
        &&& self.memory@ == before.memory@
        &&& self.test_memory@ == before.test_memory@
    }

    /// A cache below a directory, both paths resolved, or one in memory alone
    /// where it is disabled.
    pub fn new(
        directory: Option<String>,
        disabled: bool,
        repository: &str,
        fingerprint: String,
    ) -> (result: Result<Self, CacheError>)
        ensures
            match result {
                Ok(cache) => {
                    &&& disabled ==> cache.directory is None
                    &&& !disabled ==> directory is Some && !is_below(directory->0@, repository@)
                        && cache.directory == directory
                    &&& cache.fingerprint == fingerprint
                    &&& cache.memory@ == Map::<Seq<char>, Arc<FileAnalysis>>::empty()
                    &&& cache.test_memory@ == Map::<Seq<char>, Arc<TestExclusionAnalysis>>::empty()
                    &&& cache.memory_hits == 0 && cache.disk_hits == 0 && cache.misses == 0
                },
                Err(error) => !disabled && match directory {
                    None => error == CacheError::NoDirectory,
                    Some(directory) => error == CacheError::InsideRepository && is_below(
                        directory@,
                        repository@,
                    ),
                },
            },
    {
        let directory = if disabled {
            None
        } else {
            match directory {
                None => {
                    return Err(CacheError::NoDirectory);
                },
                Some(directory) => {
                    if lies_below(directory.as_str(), repository) {
                        return Err(CacheError::InsideRepository);
                    }
                    Some(directory)
                },
            }
        };
        Ok(
            Cache {
                directory,
                fingerprint,
                memory: StringHashMap::new(),
                test_memory: StringHashMap::new(),
                memory_hits: 0,
                disk_hits: 0,
                misses: 0,
            },
        )
    }

    /// Where the record of an analysis stands on disk.
    pub fn path(&self, language: Language, oid: &str, test_policy: Option<&str>) -> (result: Result<
        Option<String>,
        CacheError,
    >)
        ensures
            match result {
                Ok(path) => {
                    &&& key_failure(oid@, optional_str(test_policy)) is None
                    &&& path is Some <==> self.directory is Some
                    &&& path matches Some(path) ==> path@ == self.directory->0@ + "/"@
                        + record_place(
                        self.fingerprint@,
                        language,
                        oid@,
                        optional_str(test_policy),
                    )
                },
                Err(error) => key_failure(oid@, optional_str(test_policy)) == Some(error),
            },
    {
        match check_key(oid, test_policy) {
            Ok(()) => {},
            Err(error) => {
                return Err(error);
            },
        }
        match &self.directory {
            None => Ok(None),
            Some(directory) => {
                let mut path = directory.clone();
                path.append("/");
                let ghost head = path@;
                path.append(self.fingerprint.as_str());
                match test_policy {
                    Some(policy) => {
                        path.append("/test-exclusion/");
                        path.append(policy);
                    },
                    None => {
                        path.append("/raw");
                    },
                }
                path.append("/");
                path.append(language.id());
                path.append("/");
                path.append(oid.substring_char(0, 2));
                path.append("/");
                path.append(oid);
                path.append(".json");
                assert(path@ =~= head + record_place(
                    self.fingerprint@,
                    language,
                    oid@,
                    optional_str(test_policy),
                ));
                Ok(Some(path))
            },
        }
    }

    /// The record of a payload, to be written with it.
    pub fn record(
        &self,
        language: Language,
        oid: &str,
        test_policy: Option<&str>,
        payload: &[u8],
    ) -> (record: Record)
        ensures
            record@ == record_of(
                self.fingerprint@,
                language,
                oid@,
                optional_str(test_policy),
                payload@,
            ),
    {
        Record {
            schema: CACHE_SCHEMA,
            analyzer: self.fingerprint.clone(),
            oid: oid.to_owned(),
            language,
            test_policy: match test_policy {
                Some(policy) => Some(policy.to_owned()),
                None => None,
            },
            analysis_sha256: fingerprint_of(payload),
        }
    }

    fn check_record(
        &self,
        record: &Record,
        payload: &[u8],
        language: Language,
        oid: &str,
        test_policy: Option<&str>,
    ) -> (result: Result<(), CacheError>)
        ensures
            ({
                let expected = record_of(
                    self.fingerprint@,
                    language,
                    oid@,
                    optional_str(test_policy),
                    payload@,
                );
                match result {
                    Ok(()) => record_failure(record@, expected) is None,
                    Err(error) => record_failure(record@, expected) == Some(error),
                }
            }),
    {
        let policy: bool = match (&record.test_policy, test_policy) {
            (Some(held), Some(asked)) => same(held.as_str(), asked),
            (None, None) => true,
            _ => false,
        };
        if record.schema != CACHE_SCHEMA || !same(
            record.analyzer.as_str(),
            self.fingerprint.as_str(),
        ) || !same(record.oid.as_str(), oid) || record.language != language || !policy {
            return Err(CacheError::Identity);
        }
        let digest = fingerprint_of(payload);
        if !same(record.analysis_sha256.as_str(), digest.as_str()) {
            return Err(CacheError::Checksum);
        }
        Ok(())
    }

    /// An analysis is held in memory, so that no record has to be read.
    pub fn holds(&self, language: Language, oid: &str) -> (r: bool)
        ensures
            r == self.memory@.contains_key(raw_key(language, oid@)),
    {
        let key = raw_key_text(language, oid);
        self.memory.contains_key(key.as_str())
    }

    /// Filtered measurements are held in memory, so that no record has to be
    /// read.
    pub fn holds_test_exclusion(&self, language: Language, oid: &str, policy: &str) -> (r: bool)
        ensures
            r == self.test_memory@.contains_key(test_key(language, oid@, policy@)),
    {
        let key = test_key_text(language, oid, policy);
        self.test_memory.contains_key(key.as_str())
    }

    /// The analysis of a blob: the one in memory, or the one in the record that
    /// was found on disk, which is then held in memory.
    pub fn get(
        &mut self,
        language: Language,
        oid: &str,
        stored: Option<Stored<FileAnalysis>>,
    ) -> (result: Result<Option<Arc<FileAnalysis>>, CacheError>)
        ensures
            raw_recalled(*old(self), *final(self), language, oid@, stored, result),
    {
        let key = raw_key_text(language, oid);
        let held: Option<Arc<FileAnalysis>> = match self.memory.get(key.as_str()) {
            Some(analysis) => Some(share(analysis)),
            None => None,
        };
        if held.is_some() {
            self.memory_hits = count(self.memory_hits);
            return Ok(held);
        }
        match check_key(oid, None) {
            Ok(()) => {},
            Err(error) => {
                return Err(error);
            },
        }
        match stored {
            None => {
                self.misses = count(self.misses);
                Ok(None)
            },
            Some(stored) => {
                match self.check_record(
                    &stored.record,
                    stored.payload.as_slice(),
                    language,
                    oid,
                    None,
                ) {
                    Ok(()) => {},
                    Err(error) => {
                        return Err(error);
                    },
                }
                if stored.analysis.without_tests.is_some() {
                    return Err(CacheError::RawHoldsTests);
                }
                let analysis = Arc::new(stored.analysis);
                self.memory.insert(key, share(&analysis));
                self.disk_hits = count(self.disk_hits);
                Ok(Some(analysis))
            },
        }
    }

    /// Holds the analysis of a blob in memory.
    pub fn insert(&mut self, language: Language, oid: &str, analysis: FileAnalysis) -> (result:
        Result<Arc<FileAnalysis>, CacheError>)
        ensures
            ({
                let before = *old(self);
                let after = *final(self);
                if analysis.without_tests is Some {
                    &&& result matches Err(error) && error == CacheError::CannotStoreTests
                    &&& after == before
                } else if key_failure(oid@, None) is Some {
                    &&& result matches Err(error) && key_failure(oid@, None) == Some(error)
                    &&& after == before
                } else {
                    &&& result matches Ok(held) && *held == analysis && after.memory@
                        == before.memory@.insert(raw_key(language, oid@), held)
                    &&& after.test_memory@ == before.test_memory@
                    &&& after.directory == before.directory && after.fingerprint
                        == before.fingerprint
                    &&& after.memory_hits == before.memory_hits && after.disk_hits
                        == before.disk_hits && after.misses == before.misses
                }
            }),
    {
        if analysis.without_tests.is_some() {
            return Err(CacheError::CannotStoreTests);
        }
        match check_key(oid, None) {
            Ok(()) => {},
            Err(error) => {
                return Err(error);
            },
        }
        let held = Arc::new(analysis);
        self.memory.insert(raw_key_text(language, oid), share(&held));
        Ok(held)
    }

    /// What leaving out the test code of a blob came to: what is in memory, or
    /// what is in the record that was found on disk, which is then held in
    /// memory.
    pub fn get_test_exclusion(
        &mut self,
        language: Language,
        oid: &str,
        policy: &str,
        stored: Option<Stored<TestExclusionAnalysis>>,
    ) -> (result: Result<Option<Arc<TestExclusionAnalysis>>, CacheError>)
        ensures
            exclusion_recalled(*old(self), *final(self), language, oid@, policy@, stored, result),
    {
        let key = test_key_text(language, oid, policy);
        let held: Option<Arc<TestExclusionAnalysis>> = match self.test_memory.get(key.as_str()) {
            Some(analysis) => Some(share(analysis)),
            None => None,
        };
        if held.is_some() {
            self.memory_hits = count(self.memory_hits);
            return Ok(held);
        }
        match check_key(oid, Some(policy)) {
            Ok(()) => {},
            Err(error) => {
                return Err(error);
            },
        }
        match stored {
            None => Ok(None),
            Some(stored) => {
                match self.check_record(
                    &stored.record,
                    stored.payload.as_slice(),
                    language,
                    oid,
                    Some(policy),
                ) {
                    Ok(()) => {},
                    Err(error) => {
                        return Err(error);
                    },
                }
                let analysis = Arc::new(stored.analysis);
                self.test_memory.insert(key, share(&analysis));
                self.disk_hits = count(self.disk_hits);
                Ok(Some(analysis))
            },
        }
    }

    /// Holds in memory what leaving out the test code of a blob came to.
    pub fn insert_test_exclusion(
        &mut self,
        language: Language,
        oid: &str,
        policy: &str,
        analysis: TestExclusionAnalysis,
    ) -> (result: Result<Arc<TestExclusionAnalysis>, CacheError>)
        ensures
            ({
                let before = *old(self);
                let after = *final(self);
                let invalid = key_failure(oid@, Some(policy@));
                if invalid is Some {
                    &&& result matches Err(error) && invalid == Some(error)
                    &&& after == before
                } else {
                    &&& result matches Ok(held) && *held == analysis && after.test_memory@
                        == before.test_memory@.insert(test_key(language, oid@, policy@), held)
                    &&& after.memory@ == before.memory@
                    &&& after.directory == before.directory && after.fingerprint
                        == before.fingerprint
                    &&& after.memory_hits == before.memory_hits && after.disk_hits
                        == before.disk_hits && after.misses == before.misses
                }
            }),
    {
        match check_key(oid, Some(policy)) {
            Ok(()) => {},
            Err(error) => {
                return Err(error);
            },
        }
        let held = Arc::new(analysis);
        self.test_memory.insert(test_key_text(language, oid, policy), share(&held));
        Ok(held)
    }
}

} // verus!
