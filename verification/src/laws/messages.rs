//! What each failure says of itself.

use vstd::prelude::*;

use crate::analyzer::{analyze_message, AnalyzeFailure};
use crate::cache::{cache_message, CacheError};
use crate::calendar::shown_instant;
use crate::config::scope_globs_message;
use crate::format::{debug_text, decimal, joined, signed_decimal};
use crate::git::{git_message, GitIssue};
use crate::globs::{glob_message, GlobFailure};
use crate::history::{
    boundary_message, date_message, history_message, not_on_chain_message, span_message,
    BoundaryFailure, DateFailure, HistoryFailure, SpanFailure,
};
use crate::languages::adapters::{adapter_message, AdapterFailure};
use crate::languages::tree::AnalysisError;
use crate::languages::Language;
use crate::modules::{module_message, quotes, ModuleFailure};
use crate::output::{table_message, TableFailure};
use crate::render::{render_message, RenderFailure};
use crate::snapshot::{CountError, RecordError};

verus! {

/// Failures of a repository name what Git said or lacks.
pub proof fn repository_failures(root: Seq<char>, banner: Seq<char>, major: u32, minor: u32, oid: Seq<char>, revision: Seq<char>, sha: Seq<char>, count: usize, first: Seq<char>, line: Seq<char>, seconds: i64, path: Seq<char>, key: Seq<char>, value: Seq<char>, header: Seq<char>, mode: Seq<char>, kind: Seq<char>, echoed: Seq<char>)
    ensures
        git_message(GitIssue::UnparsedVersion { banner }, root) == ("Could not parse the Git version from "@ + debug_text(banner)),
        git_message(GitIssue::OldVersion { major, minor }, root) == ("Git "@ + decimal(major as nat) + "."@ + decimal(minor as nat) + " is too old; erosion requires Git 2.45 for --no-lazy-fetch, without which missing objects would be fetched from a promisor remote"@),
        git_message(GitIssue::InvalidOid { oid }, root) == (debug_text(oid) + " is not a full hexadecimal object id"@),
        git_message(GitIssue::<Seq<char>>::EmptyRevision, root) == ("Empty revision"@),
        git_message(GitIssue::ControlCharacter { revision }, root) == ("Revision "@ + debug_text(revision) + " contains a control character"@),
        git_message(GitIssue::RecordCount { sha, count }, root) == ("Expected one commit record for "@ + sha + ", got "@ + decimal(count as nat)),
        git_message(GitIssue::ChainStart { sha, first }, root) == ("First-parent traversal of "@ + sha + " started at "@ + first),
        git_message(GitIssue::EmptyChain { sha }, root) == ("First-parent traversal of "@ + sha + " produced no commits"@),
        git_message(GitIssue::<Seq<char>>::ListingEncoding, root) == ("Git printed non-UTF-8 commit metadata"@),
        git_message(GitIssue::CommitRecord { line }, root) == ("Malformed commit record "@ + debug_text(line)),
        git_message(GitIssue::CommitTime { line }, root) == ("Malformed committer timestamp in "@ + debug_text(line)),
        git_message(GitIssue::CommitRange { sha, seconds }, root) == ("Commit "@ + sha + " has an out-of-range committer timestamp "@ + signed_decimal(seconds as int)),
        git_message(GitIssue::<Seq<char>>::Shallow, root) == (root + " is a shallow clone; its history is truncated and cannot be measured. Unshallow the repository first"@),
        git_message(GitIssue::Grafts { path }, root) == (root + " rewrites history with a grafts file ("@ + path + "); measured history would not match the recorded commits"@),
        git_message(GitIssue::<Seq<char>>::ConfigEncoding, root) == ("Git printed non-UTF-8 configuration"@),
        git_message(GitIssue::PartialClone { key }, root) == (root + " is a partial clone ("@ + key + "); measuring it would lazily fetch missing objects. Use a complete clone"@),
        git_message(GitIssue::GraftFile { value }, root) == (root + " rewrites history with core.graftFile="@ + value + "; measured history would not match the recorded commits"@),
        git_message(GitIssue::TreeRecord { sha }, root) == ("Malformed ls-tree record in "@ + sha),
        git_message(GitIssue::PathEncoding { sha, path }, root) == ("Commit "@ + sha + " contains the non-UTF-8 path "@ + debug_text(path) + "; erosion refuses to guess its encoding"@),
        git_message(GitIssue::TreeHeader { header, sha }, root) == ("Malformed ls-tree record "@ + debug_text(header) + " in "@ + sha),
        git_message(GitIssue::TreeMode { mode, sha }, root) == ("Malformed mode "@ + debug_text(mode) + " in "@ + sha),
        git_message(GitIssue::EmptyPath { header, sha }, root) == ("Empty path in ls-tree record "@ + debug_text(header) + " in "@ + sha),
        git_message(GitIssue::ObjectType { kind, sha }, root) == ("Unexpected object type "@ + debug_text(kind) + " in "@ + sha),
        git_message(GitIssue::BatchHeader { header }, root) == ("Malformed cat-file header "@ + debug_text(header)),
        git_message(GitIssue::MissingObject { oid }, root) == ("Object "@ + oid + " is missing from the repository"@),
        git_message(GitIssue::NotBlob { oid, kind }, root) == ("Object "@ + oid + " is a "@ + kind + ", not a blob"@),
        git_message(GitIssue::WrongObject { echoed, oid }, root) == ("git cat-file answered for "@ + echoed + ", not "@ + oid),
        git_message(GitIssue::ObjectSize { header }, root) == ("Malformed object size in "@ + debug_text(header)),
        git_message(GitIssue::Terminator { oid }, root) == ("Object "@ + oid + " was not terminated by a newline"@),
        git_message(GitIssue::<Seq<char>>::UnusableReader, root) == ("The blob reader is unusable after an earlier failure"@),
{
}

/// Failures of a span name what is missing or unknown.
pub proof fn span_failures(unit: Seq<char>, count: Seq<char>)
    ensures
        span_message(SpanFailure::NoNumber) == ("expected a positive whole number followed by d, w, mo or y"@),
        span_message(SpanFailure::NoUnit) == ("missing unit; use d, w, mo or y"@),
        span_message(SpanFailure::AmbiguousUnit) == ("ambiguous unit \"m\"; use \"mo\" for months"@),
        span_message(SpanFailure::UnknownUnit(unit)) == ("unknown unit "@ + debug_text(unit) + "; use d, w, mo or y without compounds"@),
        span_message(SpanFailure::TooLarge(count)) == (count + " is too large"@),
        span_message(SpanFailure::Zero) == ("the value must be positive"@),
{
}

/// Failures of a date name its form or its text.
pub proof fn date_failures(text: Seq<char>)
    ensures
        date_message(DateFailure::Shape) == ("expected a YYYY-MM-DD date"@),
        date_message(DateFailure::NotReal(text)) == (text + " is not a real calendar date"@),
{
}

/// Failures of a boundary name both forms that it can have.
pub proof fn boundary_failures(failure: DateFailure, failure_span: SpanFailure)
    ensures
        boundary_message(BoundaryFailure::Date(failure)) == (date_message(failure)),
        boundary_message(BoundaryFailure::Span(failure_span)) == (span_message(failure_span) + ", and it is not a YYYY-MM-DD date"@),
{
}

/// Failures of a history name the option and its value.
pub proof fn history_failures(value: Seq<char>, failure: SpanFailure, failure_until: DateFailure, failure_since: BoundaryFailure, start: i64, end: i64, every: Seq<char>)
    ensures
        history_message(HistoryFailure::Every { value, failure }) == ("Invalid --every value "@ + debug_text(value) + ": "@ + span_message(failure)),
        history_message(HistoryFailure::Until { value, failure: failure_until }) == ("Invalid --until value "@ + debug_text(value) + ": "@ + date_message(failure_until)),
        history_message(HistoryFailure::NoEnd) == ("The selected history is empty, so there is no end date; pass --until to measure explicit dates"@),
        history_message(HistoryFailure::Since { value, failure: failure_since }) == ("Invalid --since value "@ + debug_text(value) + ": "@ + boundary_message(failure_since)),
        history_message(HistoryFailure::OutOfCalendar) == ("The requested range overflows the supported calendar"@),
        history_message(HistoryFailure::Inverted { start, end }) == ("--since "@ + shown_instant(start) + " is after the end of the measured range "@ + shown_instant(end)),
        history_message(HistoryFailure::TooMany { every }) == ("The requested range needs more than "@ + decimal( 4096, ) + " checkpoints at a cadence of "@ + every + "; narrow the range or widen --every"@),
{
}

/// Failures of the cache name the record, or what to do about it.
pub proof fn cache_failures(path: Seq<char>)
    ensures
        cache_message(CacheError::NoDirectory, path) == ("No user cache directory available; use --cache-dir or --no-cache"@),
        cache_message(CacheError::InsideRepository, path) == ("Cache must be outside the measured repository; use --cache-dir or --no-cache"@),
        cache_message(CacheError::InvalidOid, path) == ("Invalid blob object ID"@),
        cache_message(CacheError::InvalidPolicy, path) == ("Invalid test-policy fingerprint"@),
        cache_message(CacheError::Identity, path) == ("Cache identity mismatch at "@ + path + "; remove it or use --no-cache"@),
        cache_message(CacheError::Checksum, path) == ("Cache payload checksum mismatch at "@ + path + "; remove it or use --no-cache"@),
        cache_message(CacheError::RawHoldsTests, path) == ("Raw cache contains test-exclusion analysis; remove it or use --no-cache"@),
        cache_message(CacheError::CannotStoreTests, path) == ("Cannot store test-exclusion analysis in the raw cache"@),
{
}

/// Failures of an analysis name the file.
pub proof fn analysis_failures(path: Seq<char>, failure: AdapterFailure, error: AnalysisError, error_cache: CacheError)
    ensures
        analyze_message(AnalyzeFailure::Adapter { failure }, path) == (adapter_message(failure)),
        analyze_message(AnalyzeFailure::Analysis { error }, path) == ("Analyzing "@ + debug_text(path) + ": "@ + error.text()),
        analyze_message(AnalyzeFailure::RawDisagrees, path) == ("Raw analysis disagrees with cached data for "@ + debug_text(path) + "; remove it or use --no-cache"@),
        analyze_message(AnalyzeFailure::ExclusionDisagrees, path) == ("Test exclusion disagrees with cached data for "@ + debug_text(path) + "; remove it or use --no-cache"@),
        analyze_message(AnalyzeFailure::Cache { error: error_cache }, path) == (cache_message(error_cache, path)),
{
}

/// Failures of a table name what it lacks.
pub proof fn table_failures(mode: Seq<char>)
    ensures
        table_message(TableFailure::MeasureCount) == ("Measure output requires exactly one snapshot"@),
        table_message(TableFailure::DeltaCount) == ("Delta output requires exactly two snapshots"@),
        table_message(TableFailure::MeasureCommit) == ("Measure commit is missing"@),
        table_message(TableFailure::FromCommit) == ("Delta FROM commit is missing"@),
        table_message(TableFailure::ToCommit) == ("Delta TO commit is missing"@),
        table_message(TableFailure::UnknownMode { mode }) == ("Unknown report mode "@ + debug_text(mode)),
{
}

/// Failures of a rendering name what does not fit.
pub proof fn render_failures(failure: TableFailure)
    ensures
        render_message(RenderFailure::Unfit) == ("Snapshots and their measures do not fit"@),
        render_message(RenderFailure::Inventory) == ("Missing module inventory checkpoint"@),
        render_message(RenderFailure::Table { failure }) == (table_message(failure)),
{
}

/// Failures of a grouping name its depth and its patterns.
pub proof fn module_failures(failure: GlobFailure, depth: usize, patterns: Seq<Seq<char>>)
    ensures
        module_message(ModuleFailure::ZeroDepth) == ("Module depth must be greater than zero"@),
        module_message(ModuleFailure::Globs { failure }) == (glob_message( failure, "Invalid module glob "@, "Compiling module globs"@, )),
        module_message(ModuleFailure::NoMatch { depth, patterns }) == ("No discovered directory modules match at depth "@ + decimal(depth as nat) + " in the sampled commits (globs: ["@ + joined(quotes(patterns), ", "@) + "]); files are not modules. Adjust --depth, --glob, or the time range; use measure for repository-root files"@),
{
}

/// Failures of patterns name the pattern, or the whole set.
pub proof fn glob_failures(invalid: Seq<char>, compiling: Seq<char>, pattern: Seq<char>, complaint: Seq<char>)
    ensures
        glob_message(GlobFailure::Pattern { pattern, complaint }, invalid, compiling) == (invalid + debug_text(pattern) + ": "@ + complaint),
        glob_message(GlobFailure::Whole { complaint }, invalid, compiling) == (compiling + ": "@ + complaint),
{
}

/// Failures of a scope are those of its patterns.
pub proof fn scope_failures(failure: GlobFailure)
    ensures
        scope_globs_message(failure) == glob_message(
            failure,
            "Invalid scope glob "@,
            "Compiling scope globs"@,
        ),
{
}

/// A commit that is not on the chain is named, and so is the chain.
pub proof fn chain_failures(from: Seq<char>, to: Seq<char>)
    ensures
        not_on_chain_message(from, to) == "FROM "@ + from
            + " is not on the first-parent chain of TO "@ + to,
{
}

/// Failures of a grammar name the language and what it lacks.
pub proof fn grammar_failures(language: Language, kind: Seq<char>, field: Seq<char>, failure: GlobFailure)
    ensures
        adapter_message(AdapterFailure::Unsupported { language })
            == "JavaScript adapter does not support "@ + language.name(),
        language == Language::JavaScript || language == Language::TypeScript || language
            == Language::Tsx ==> adapter_message(AdapterFailure::MissingKind { language, kind })
            == "Grammar contract changed: "@ + language.name() + " has no "@ + kind
            && adapter_message(AdapterFailure::MissingField { language, field })
            == "Grammar missing "@ + field + " field"@,
        language == Language::Python ==> adapter_message(
            AdapterFailure::MissingKind { language, kind },
        ) == "Python "@ + "grammar missing "@ + kind && adapter_message(
            AdapterFailure::MissingField { language, field },
        ) == "Python grammar missing callable body"@,
        language == Language::Rust ==> adapter_message(
            AdapterFailure::MissingKind { language, kind },
        ) == "Rust "@ + "grammar missing "@ + kind && adapter_message(
            AdapterFailure::MissingField { language, field },
        ) == "Rust "@ + "grammar missing "@ + field + " field"@,
        language == Language::Gleam ==> adapter_message(
            AdapterFailure::MissingKind { language, kind },
        ) == "Gleam "@ + "grammar missing "@ + kind && adapter_message(
            AdapterFailure::MissingField { language, field },
        ) == "Gleam "@ + "grammar missing "@ + field + " field"@,
        adapter_message(AdapterFailure::TestPaths { failure }) == glob_message(
            failure,
            "Invalid language test path pattern "@,
            "Compiling language test paths"@,
        ),
{
}

/// Failures of a parse and of a count say which they are.
pub proof fn counting_failures(error: RecordError)
    ensures
        AnalysisError::Cancelled.text() == "Parser cancelled without a tree"@,
        AnalysisError::Malformed.text() == "Parser returned a malformed tree"@,
        AnalysisError::Unexplained.text() == "Parser returned an unexplained syntax error"@,
        AnalysisError::InvalidRegion.text() == "Invalid language test region"@,
        AnalysisError::ChangedValidation.text() == "Test filtering changed syntax validation"@,
        AnalysisError::Increased.text()
            == "Test filtering increased measured source or function counts"@,
        RecordError::MissingTestCoverage.text() == "Missing syntax test coverage"@,
        RecordError::FunctionCount.text() == "Invalid cached test-filtered function count"@,
        RecordError::SourceCount.text() == "Invalid cached test-filtered source count"@,
        RecordError::MissingFunctionCoverage.text() == "Missing test function coverage"@,
        RecordError::MissingLineCoverage.text() == "Missing test line coverage"@,
        CountError::TooMuchSource.text() == "Too much source to count"@,
        (CountError::Record { error }).text() == error.text(),
{
}

} // verus!
