//! What Git prints, read and checked.
//!
//! A repository is measured only where its history is complete and as recorded:
//! partial and shallow clones, grafted histories and old releases of Git are
//! refused. Object ids are full and in lower case. Paths that are not UTF-8 are
//! errors.

use vstd::prelude::*;
use vstd::slice::*;
use vstd::string::*;
use vstd::utf8::*;

use crate::calendar::{is_instant, FIRST_INSTANT, LAST_INSTANT};
use crate::digest::is_lower_hex;
use crate::format::{
    debug_text, decimal, decimal_text, is_digit, parse_signed, parse_unsigned, quoted,
    signed, signed_decimal, signed_text, unsigned,
};
use crate::sort::{in_order, insert_sorted, lemma_insert_at, lemma_insert_in_order, strict_order};
use crate::text::{
    byte_parts, byte_position, byte_slices, decode, decode_valid, decoded, ends_with, find_byte,
    find_char, is_white, less, lossy, lossy_text, position_of, same, slices, split, split_bytes,
    split_text, starts_with, text_less, white,
};

verus! {

/// The first release of Git that never fetches missing objects while it reads.
pub const MINIMUM_GIT_VERSION: (u32, u32) = (2, 45);

/// A commit by its full object id and committer timestamp, in seconds since 1970.
#[derive(Debug)]
pub struct Commit {
    pub sha: String,
    pub committed_at: i64,
}

pub struct CommitModel {
    pub sha: Seq<char>,
    pub committed_at: i64,
}

impl View for Commit {
    type V = CommitModel;

    open spec fn view(&self) -> CommitModel {
        CommitModel { sha: self.sha@, committed_at: self.committed_at }
    }
}

impl Clone for Commit {
    fn clone(&self) -> (copy: Self)
        ensures
            copy@ == self@,
    {
        Commit { sha: self.sha.clone(), committed_at: self.committed_at }
    }
}

pub open spec fn commit_model(commit: Option<Commit>) -> Option<CommitModel> {
    match commit {
        Some(commit) => Some(commit@),
        None => None,
    }
}

pub open spec fn commit_models(commits: Seq<Commit>) -> Seq<CommitModel> {
    commits.map_values(|c: Commit| c@)
}

/// What is wrong with what Git says, or with what is asked of it.
#[derive(Debug)]
pub enum GitIssue<T> {
    /// The banner of Git names no version.
    UnparsedVersion { banner: T },
    /// Git is older than the first release that can be trusted.
    OldVersion { major: u32, minor: u32 },
    /// The text is no full object id.
    InvalidOid { oid: T },
    /// The revision is empty.
    EmptyRevision,
    /// The revision holds a character that no revision has.
    ControlCharacter { revision: T },
    /// There is not exactly one record for a commit.
    RecordCount { sha: T, count: usize },
    /// The chain does not start at the commit that was asked for.
    ChainStart { sha: T, first: T },
    /// The chain holds no commit.
    EmptyChain { sha: T },
    /// The list of commits is not UTF-8.
    ListingEncoding,
    /// A line of the list of commits has no timestamp.
    CommitRecord { line: T },
    /// A timestamp is no number.
    CommitTime { line: T },
    /// A timestamp lies outside the calendar.
    CommitRange { sha: T, seconds: i64 },
    /// The clone lacks history.
    Shallow,
    /// A file rewrites history.
    Grafts { path: T },
    /// The configuration is not UTF-8.
    ConfigEncoding,
    /// The clone lacks objects.
    PartialClone { key: T },
    /// The configuration rewrites history.
    GraftFile { value: T },
    /// A tree record has no path or an unreadable header.
    TreeRecord { sha: T },
    /// A path is not UTF-8.
    PathEncoding { sha: T, path: T },
    /// A tree record does not have three fields.
    TreeHeader { header: T, sha: T },
    /// A mode is not six digits.
    TreeMode { mode: T, sha: T },
    /// A tree record has an empty path.
    EmptyPath { header: T, sha: T },
    /// A tree record names no known object type.
    ObjectType { kind: T, sha: T },
    /// The answer for an object has no readable header.
    BatchHeader { header: T },
    /// The object is not there.
    MissingObject { oid: T },
    /// The object is no blob.
    NotBlob { oid: T, kind: T },
    /// The answer is for another object.
    WrongObject { echoed: T, oid: T },
    /// The size of an object is no number.
    ObjectSize { header: T },
    /// The content of an object does not end as it should.
    Terminator { oid: T },
    /// Objects are no longer read after a failure.
    UnusableReader,
}

pub type GitError = GitIssue<String>;

pub type GitFailure = GitIssue<Seq<char>>;

/// An error as specifications speak of it.
pub open spec fn git_failure(error: GitError) -> GitFailure {
    match error {
        GitIssue::UnparsedVersion { banner } => GitIssue::UnparsedVersion { banner: banner@ },
        GitIssue::OldVersion { major, minor } => GitIssue::OldVersion { major, minor },
        GitIssue::InvalidOid { oid } => GitIssue::InvalidOid { oid: oid@ },
        GitIssue::EmptyRevision => GitIssue::EmptyRevision,
        GitIssue::ControlCharacter { revision } => GitIssue::ControlCharacter { revision: revision@ },
        GitIssue::RecordCount { sha, count } => GitIssue::RecordCount { sha: sha@, count },
        GitIssue::ChainStart { sha, first } => GitIssue::ChainStart { sha: sha@, first: first@ },
        GitIssue::EmptyChain { sha } => GitIssue::EmptyChain { sha: sha@ },
        GitIssue::ListingEncoding => GitIssue::ListingEncoding,
        GitIssue::CommitRecord { line } => GitIssue::CommitRecord { line: line@ },
        GitIssue::CommitTime { line } => GitIssue::CommitTime { line: line@ },
        GitIssue::CommitRange { sha, seconds } => GitIssue::CommitRange { sha: sha@, seconds },
        GitIssue::Shallow => GitIssue::Shallow,
        GitIssue::Grafts { path } => GitIssue::Grafts { path: path@ },
        GitIssue::ConfigEncoding => GitIssue::ConfigEncoding,
        GitIssue::PartialClone { key } => GitIssue::PartialClone { key: key@ },
        GitIssue::GraftFile { value } => GitIssue::GraftFile { value: value@ },
        GitIssue::TreeRecord { sha } => GitIssue::TreeRecord { sha: sha@ },
        GitIssue::PathEncoding { sha, path } => GitIssue::PathEncoding { sha: sha@, path: path@ },
        GitIssue::TreeHeader { header, sha } => GitIssue::TreeHeader { header: header@, sha: sha@ },
        GitIssue::TreeMode { mode, sha } => GitIssue::TreeMode { mode: mode@, sha: sha@ },
        GitIssue::EmptyPath { header, sha } => GitIssue::EmptyPath { header: header@, sha: sha@ },
        GitIssue::ObjectType { kind, sha } => GitIssue::ObjectType { kind: kind@, sha: sha@ },
        GitIssue::BatchHeader { header } => GitIssue::BatchHeader { header: header@ },
        GitIssue::MissingObject { oid } => GitIssue::MissingObject { oid: oid@ },
        GitIssue::NotBlob { oid, kind } => GitIssue::NotBlob { oid: oid@, kind: kind@ },
        GitIssue::WrongObject { echoed, oid } => GitIssue::WrongObject { echoed: echoed@, oid: oid@ },
        GitIssue::ObjectSize { header } => GitIssue::ObjectSize { header: header@ },
        GitIssue::Terminator { oid } => GitIssue::Terminator { oid: oid@ },
        GitIssue::UnusableReader => GitIssue::UnusableReader,
    }
}

/// What to tell the user.
pub open spec fn git_message(failure: GitFailure, root: Seq<char>) -> Seq<char> {
    match failure {
        GitIssue::UnparsedVersion { banner } => "Could not parse the Git version from "@ + debug_text(banner),
        GitIssue::OldVersion { major, minor } => "Git "@ + decimal(major as nat) + "."@ + decimal(minor as nat) + " is too old; erosion requires Git 2.45 for --no-lazy-fetch, without which missing objects would be fetched from a promisor remote"@,
        GitIssue::InvalidOid { oid } => debug_text(oid) + " is not a full hexadecimal object id"@,
        GitIssue::EmptyRevision => "Empty revision"@,
        GitIssue::ControlCharacter { revision } => "Revision "@ + debug_text(revision) + " contains a control character"@,
        GitIssue::RecordCount { sha, count } => "Expected one commit record for "@ + sha + ", got "@ + decimal(count as nat),
        GitIssue::ChainStart { sha, first } => "First-parent traversal of "@ + sha + " started at "@ + first,
        GitIssue::EmptyChain { sha } => "First-parent traversal of "@ + sha + " produced no commits"@,
        GitIssue::ListingEncoding => "Git printed non-UTF-8 commit metadata"@,
        GitIssue::CommitRecord { line } => "Malformed commit record "@ + debug_text(line),
        GitIssue::CommitTime { line } => "Malformed committer timestamp in "@ + debug_text(line),
        GitIssue::CommitRange { sha, seconds } => "Commit "@ + sha + " has an out-of-range committer timestamp "@ + signed_decimal(seconds as int),
        GitIssue::Shallow => root + " is a shallow clone; its history is truncated and cannot be measured. Unshallow the repository first"@,
        GitIssue::Grafts { path } => root + " rewrites history with a grafts file ("@ + path + "); measured history would not match the recorded commits"@,
        GitIssue::ConfigEncoding => "Git printed non-UTF-8 configuration"@,
        GitIssue::PartialClone { key } => root + " is a partial clone ("@ + key + "); measuring it would lazily fetch missing objects. Use a complete clone"@,
        GitIssue::GraftFile { value } => root + " rewrites history with core.graftFile="@ + value + "; measured history would not match the recorded commits"@,
        GitIssue::TreeRecord { sha } => "Malformed ls-tree record in "@ + sha,
        GitIssue::PathEncoding { sha, path } => "Commit "@ + sha + " contains the non-UTF-8 path "@ + debug_text(path) + "; erosion refuses to guess its encoding"@,
        GitIssue::TreeHeader { header, sha } => "Malformed ls-tree record "@ + debug_text(header) + " in "@ + sha,
        GitIssue::TreeMode { mode, sha } => "Malformed mode "@ + debug_text(mode) + " in "@ + sha,
        GitIssue::EmptyPath { header, sha } => "Empty path in ls-tree record "@ + debug_text(header) + " in "@ + sha,
        GitIssue::ObjectType { kind, sha } => "Unexpected object type "@ + debug_text(kind) + " in "@ + sha,
        GitIssue::BatchHeader { header } => "Malformed cat-file header "@ + debug_text(header),
        GitIssue::MissingObject { oid } => "Object "@ + oid + " is missing from the repository"@,
        GitIssue::NotBlob { oid, kind } => "Object "@ + oid + " is a "@ + kind + ", not a blob"@,
        GitIssue::WrongObject { echoed, oid } => "git cat-file answered for "@ + echoed + ", not "@ + oid,
        GitIssue::ObjectSize { header } => "Malformed object size in "@ + debug_text(header),
        GitIssue::Terminator { oid } => "Object "@ + oid + " was not terminated by a newline"@,
        GitIssue::UnusableReader => "The blob reader is unusable after an earlier failure"@,
    }
}

/// What to tell the user of a problem in the repository at `root`.
pub fn git_error_text(error: &GitError, root: &str) -> (message: String)
    ensures
        message@ == git_message(git_failure(*error), root@),
{
    let mut message = String::new();
    assert(message@ =~= Seq::<char>::empty());
    match error {
        GitIssue::UnparsedVersion { banner } => {
            message.append("Could not parse the Git version from ");
            let quote = quoted(banner.as_str());
            message.append(quote.as_str());
        },
        GitIssue::OldVersion { major, minor } => {
            message.append("Git ");
            let major_digits = decimal_text(*major as u64);
            message.append(major_digits.as_str());
            message.append(".");
            let minor_digits = decimal_text(*minor as u64);
            message.append(minor_digits.as_str());
            message.append(" is too old; erosion requires Git 2.45 for --no-lazy-fetch, without which missing objects would be fetched from a promisor remote");
        },
        GitIssue::InvalidOid { oid } => {
            let quote = quoted(oid.as_str());
            message.append(quote.as_str());
            message.append(" is not a full hexadecimal object id");
        },
        GitIssue::EmptyRevision => {
            message.append("Empty revision");
        },
        GitIssue::ControlCharacter { revision } => {
            message.append("Revision ");
            let quote = quoted(revision.as_str());
            message.append(quote.as_str());
            message.append(" contains a control character");
        },
        GitIssue::RecordCount { sha, count } => {
            message.append("Expected one commit record for ");
            message.append(sha.as_str());
            message.append(", got ");
            let count_digits = decimal_text(*count as u64);
            message.append(count_digits.as_str());
        },
        GitIssue::ChainStart { sha, first } => {
            message.append("First-parent traversal of ");
            message.append(sha.as_str());
            message.append(" started at ");
            message.append(first.as_str());
        },
        GitIssue::EmptyChain { sha } => {
            message.append("First-parent traversal of ");
            message.append(sha.as_str());
            message.append(" produced no commits");
        },
        GitIssue::ListingEncoding => {
            message.append("Git printed non-UTF-8 commit metadata");
        },
        GitIssue::CommitRecord { line } => {
            message.append("Malformed commit record ");
            let quote = quoted(line.as_str());
            message.append(quote.as_str());
        },
        GitIssue::CommitTime { line } => {
            message.append("Malformed committer timestamp in ");
            let quote = quoted(line.as_str());
            message.append(quote.as_str());
        },
        GitIssue::CommitRange { sha, seconds } => {
            message.append("Commit ");
            message.append(sha.as_str());
            message.append(" has an out-of-range committer timestamp ");
            let digits = signed_text(*seconds);
            message.append(digits.as_str());
        },
        GitIssue::Shallow => {
            message.append(root);
            message.append(" is a shallow clone; its history is truncated and cannot be measured. Unshallow the repository first");
        },
        GitIssue::Grafts { path } => {
            message.append(root);
            message.append(" rewrites history with a grafts file (");
            message.append(path.as_str());
            message.append("); measured history would not match the recorded commits");
        },
        GitIssue::ConfigEncoding => {
            message.append("Git printed non-UTF-8 configuration");
        },
        GitIssue::PartialClone { key } => {
            message.append(root);
            message.append(" is a partial clone (");
            message.append(key.as_str());
            message.append("); measuring it would lazily fetch missing objects. Use a complete clone");
        },
        GitIssue::GraftFile { value } => {
            message.append(root);
            message.append(" rewrites history with core.graftFile=");
            message.append(value.as_str());
            message.append("; measured history would not match the recorded commits");
        },
        GitIssue::TreeRecord { sha } => {
            message.append("Malformed ls-tree record in ");
            message.append(sha.as_str());
        },
        GitIssue::PathEncoding { sha, path } => {
            message.append("Commit ");
            message.append(sha.as_str());
            message.append(" contains the non-UTF-8 path ");
            let quote = quoted(path.as_str());
            message.append(quote.as_str());
            message.append("; erosion refuses to guess its encoding");
        },
        GitIssue::TreeHeader { header, sha } => {
            message.append("Malformed ls-tree record ");
            let quote = quoted(header.as_str());
            message.append(quote.as_str());
            message.append(" in ");
            message.append(sha.as_str());
        },
        GitIssue::TreeMode { mode, sha } => {
            message.append("Malformed mode ");
            let quote = quoted(mode.as_str());
            message.append(quote.as_str());
            message.append(" in ");
            message.append(sha.as_str());
        },
        GitIssue::EmptyPath { header, sha } => {
            message.append("Empty path in ls-tree record ");
            let quote = quoted(header.as_str());
            message.append(quote.as_str());
            message.append(" in ");
            message.append(sha.as_str());
        },
        GitIssue::ObjectType { kind, sha } => {
            message.append("Unexpected object type ");
            let quote = quoted(kind.as_str());
            message.append(quote.as_str());
            message.append(" in ");
            message.append(sha.as_str());
        },
        GitIssue::BatchHeader { header } => {
            message.append("Malformed cat-file header ");
            let quote = quoted(header.as_str());
            message.append(quote.as_str());
        },
        GitIssue::MissingObject { oid } => {
            message.append("Object ");
            message.append(oid.as_str());
            message.append(" is missing from the repository");
        },
        GitIssue::NotBlob { oid, kind } => {
            message.append("Object ");
            message.append(oid.as_str());
            message.append(" is a ");
            message.append(kind.as_str());
            message.append(", not a blob");
        },
        GitIssue::WrongObject { echoed, oid } => {
            message.append("git cat-file answered for ");
            message.append(echoed.as_str());
            message.append(", not ");
            message.append(oid.as_str());
        },
        GitIssue::ObjectSize { header } => {
            message.append("Malformed object size in ");
            let quote = quoted(header.as_str());
            message.append(quote.as_str());
        },
        GitIssue::Terminator { oid } => {
            message.append("Object ");
            message.append(oid.as_str());
            message.append(" was not terminated by a newline");
        },
        GitIssue::UnusableReader => {
            message.append("The blob reader is unusable after an earlier failure");
        },
    }
    assert(message@ =~= git_message(git_failure(*error), root@));
    message
}

/// The text is a full object id: 40 or 64 lower-case hexadecimal digits.
pub open spec fn is_oid(oid: Seq<char>) -> bool {
    (oid.len() == 40 || oid.len() == 64) && forall|k: int|
        0 <= k < oid.len() ==> is_lower_hex(#[trigger] oid[k])
}

/// The text is a full object id.
pub fn valid_oid(oid: &str) -> (r: bool)
    ensures
        r == is_oid(oid@),
{
    let length: usize = oid.unicode_len();
    if length != 40 && length != 64 {
        return false;
    }
    let mut k: usize = 0;
    while k < length
        invariant
            k <= length == oid@.len(),
            forall|n: int| 0 <= n < k ==> is_lower_hex(#[trigger] oid@[n]),
        decreases length - k,
    {
        let c: char = oid.get_char(k);
        if !(('0' <= c && c <= '9') || ('a' <= c && c <= 'f')) {
            assert(!is_lower_hex(oid@[k as int]));
            return false;
        }
        k = k + 1;
    }
    true
}

/// Accepts a full object id.
pub fn validate_oid(oid: &str) -> (result: Result<String, GitError>)
    ensures
        match result {
            Ok(text) => is_oid(oid@) && text@ == oid@,
            Err(error) => !is_oid(oid@) && git_failure(error) == (GitIssue::InvalidOid {
                oid: oid@,
            }),
        },
{
    if valid_oid(oid) {
        Ok(oid.to_owned())
    } else {
        Err(GitIssue::InvalidOid { oid: oid.to_owned() })
    }
}

/// The position of the first character at or behind a position that is white
/// space or is not.
pub open spec fn scan_white(s: Seq<char>, at: int, is: bool) -> int
    decreases s.len() - at,
{
    if at < s.len() && is_white(s[at]) != is {
        scan_white(s, at + 1, is)
    } else {
        at
    }
}

/// The first word at or behind a position that begins with a digit.
pub open spec fn version_word(s: Seq<char>, at: int) -> Option<Seq<char>>
    decreases s.len() - at,
{
    let start = scan_white(s, at, false);
    let end = scan_white(s, start, true);
    if start >= s.len() || end <= at || end > s.len() {
        None
    } else if is_digit(s[start]) {
        Some(s.subrange(start, end))
    } else {
        version_word(s, end)
    }
}

/// A text without what follows its last digit.
pub open spec fn trim_to_digit(s: Seq<char>) -> Seq<char>
    decreases s.len(),
{
    if s.len() == 0 || is_digit(s.last()) {
        s
    } else {
        trim_to_digit(s.drop_last())
    }
}

/// The major and minor number of a word such as `2.39.3.windows.1`.
pub open spec fn version_of(word: Seq<char>) -> Option<(u32, u32)> {
    let parts = split(word, '.');
    let minor = if parts.len() > 1 {
        trim_to_digit(parts[1])
    } else {
        trim_to_digit("0"@)
    };
    match (unsigned(parts[0], u32::MAX as int), unsigned(minor, u32::MAX as int)) {
        (Some(major), Some(minor)) => Some((major as u32, minor as u32)),
        _ => None,
    }
}

/// The version that a banner names.
pub open spec fn banner_version(banner: Seq<char>) -> Option<(u32, u32)> {
    match version_word(banner, 0) {
        Some(word) => version_of(word),
        None => None,
    }
}

fn find_white(s: &str, from: usize, is: bool) -> (at: usize)
    requires
        from <= s@.len(),
    ensures
        at == scan_white(s@, from as int, is),
        from <= at <= s@.len(),
{
    let length: usize = s.unicode_len();
    let mut at: usize = from;
    while at < length && white(s.get_char(at)) != is
        invariant
            from <= at <= length == s@.len(),
            scan_white(s@, at as int, is) == scan_white(s@, from as int, is),
        decreases length - at,
    {
        at = at + 1;
    }
    at
}

fn find_version_word(s: &str) -> (word: Option<&str>)
    ensures
        crate::format::optional_str(word) == version_word(s@, 0),
{
    let length: usize = s.unicode_len();
    let mut at: usize = 0;
    loop
        invariant
            at <= length == s@.len(),
            version_word(s@, at as int) == version_word(s@, 0),
        decreases length - at,
    {
        let start: usize = find_white(s, at, false);
        if start >= length {
            return None;
        }
        let end: usize = find_white(s, start, true);
        let c: char = s.get_char(start);
        if end <= at {
            return None;
        }
        if '0' <= c && c <= '9' {
            return Some(s.substring_char(start, end));
        }
        at = end;
    }
}

fn trimmed_to_digit(s: &str) -> (result: &str)
    ensures
        result@ == trim_to_digit(s@),
{
    let length: usize = s.unicode_len();
    let mut end: usize = length;
    assert(s@.subrange(0, length as int) =~= s@);
    while end > 0 && !('0' <= s.get_char(end - 1) && s.get_char(end - 1) <= '9')
        invariant
            end <= length == s@.len(),
            trim_to_digit(s@.subrange(0, end as int)) == trim_to_digit(s@),
        decreases end,
    {
        assert(s@.subrange(0, end as int).drop_last() =~= s@.subrange(0, end - 1));
        end = end - 1;
    }
    s.substring_char(0, end)
}

/// The version that a banner such as `git version 2.50.1` names.
pub fn parse_version(banner: &str) -> (version: Option<(u32, u32)>)
    ensures
        version == banner_version(banner@),
{
    let word: &str = match find_version_word(banner) {
        Some(word) => word,
        None => {
            return None;
        },
    };
    let parts = split_text(word, '.');
    assert(slices(parts@)[0] == parts@[0]@);
    let minor: &str = if parts.len() > 1 {
        assert(slices(parts@)[1] == parts@[1]@);
        trimmed_to_digit(parts[1])
    } else {
        trimmed_to_digit("0")
    };
    match (parse_unsigned(parts[0], 0xffff_ffff), parse_unsigned(minor, 0xffff_ffff)) {
        (Some(major), Some(minor)) => Some((major as u32, minor as u32)),
        _ => None,
    }
}

/// The version is one that can be trusted.
pub open spec fn is_supported(version: (u32, u32)) -> bool {
    version.0 > MINIMUM_GIT_VERSION.0 || (version.0 == MINIMUM_GIT_VERSION.0 && version.1
        >= MINIMUM_GIT_VERSION.1)
}

/// Accepts the banner of a release of Git that can be trusted.
pub fn check_version(banner: &str) -> (result: Result<(), GitError>)
    ensures
        match banner_version(banner@) {
            None => result matches Err(error) && git_failure(error) == (GitIssue::UnparsedVersion {
                banner: banner@,
            }),
            Some(version) => if is_supported(version) {
                result is Ok
            } else {
                result matches Err(error) && git_failure(error) == (GitIssue::<
                    Seq<char>,
                >::OldVersion { major: version.0, minor: version.1 })
            },
        },
{
    match parse_version(banner) {
        None => Err(GitIssue::UnparsedVersion { banner: banner.to_owned() }),
        Some((major, minor)) => {
            if major > MINIMUM_GIT_VERSION.0 || (major == MINIMUM_GIT_VERSION.0 && minor
                >= MINIMUM_GIT_VERSION.1) {
                Ok(())
            } else {
                Err(GitIssue::OldVersion { major, minor })
            }
        },
    }
}

/// A text without the line ends behind it.
pub open spec fn without_line_ends(s: Seq<char>) -> Seq<char>
    decreases s.len(),
{
    if s.len() > 0 && (s.last() == '\n' || s.last() == '\r') {
        without_line_ends(s.drop_last())
    } else {
        s
    }
}

/// A text without the line ends behind it.
pub fn trim_line_ends(s: &str) -> (result: &str)
    ensures
        result@ == without_line_ends(s@),
{
    let length: usize = s.unicode_len();
    let mut end: usize = length;
    assert(s@.subrange(0, length as int) =~= s@);
    while end > 0 && (s.get_char(end - 1) == '\n' || s.get_char(end - 1) == '\r')
        invariant
            end <= length == s@.len(),
            without_line_ends(s@.subrange(0, end as int)) == without_line_ends(s@),
        decreases end,
    {
        assert(s@.subrange(0, end as int).drop_last() =~= s@.subrange(0, end - 1));
        end = end - 1;
    }
    s.substring_char(0, end)
}

/// What is wrong with a revision that a user asks for, where anything is.
pub open spec fn revision_failure(revision: Seq<char>) -> Option<GitFailure> {
    if revision.len() == 0 {
        Some(GitIssue::EmptyRevision)
    } else if revision.contains('\0') || revision.contains('\n') {
        Some(GitIssue::ControlCharacter { revision })
    } else {
        None
    }
}

fn holds(text: &str, c: char) -> (r: bool)
    ensures
        r == text@.contains(c),
{
    let at: usize = position_of(text, c, 0);
    let r: bool = at < text.unicode_len();
    proof {
        crate::text::lemma_find_char(text@, c, 0);
        if r {
            assert(text@[at as int] == c);
        } else {
            assert forall|k: int| 0 <= k < text@.len() implies #[trigger] text@[k] != c by {}
        }
    }
    r
}

/// The argument that asks Git for the commit that a revision stands for.
pub fn peeled_revision(revision: &str) -> (result: Result<String, GitError>)
    ensures
        match result {
            Ok(argument) => revision_failure(revision@) is None && argument@ == revision@
                + "^{commit}"@,
            Err(error) => revision_failure(revision@) == Some(git_failure(error)),
        },
{
    if revision.unicode_len() == 0 {
        return Err(GitIssue::EmptyRevision);
    }
    if holds(revision, '\0') || holds(revision, '\n') {
        return Err(GitIssue::ControlCharacter { revision: revision.to_owned() });
    }
    let mut argument = revision.to_owned();
    argument.append("^{commit}");
    Ok(argument)
}

/// A line without the carriage return of its line end.
pub open spec fn line_content(line: Seq<u8>, ended: bool) -> Seq<u8> {
    if ended && line.len() > 0 && line.last() == 13u8 {
        line.drop_last()
    } else {
        line
    }
}

/// The commit that a line `<object id> <seconds>` names.
pub open spec fn commit_of(line: Seq<char>) -> Result<CommitModel, GitFailure> {
    let space = find_char(line, ' ', 0);
    let sha = line.subrange(0, space);
    let seconds = signed(line.subrange(space + 1, line.len() as int), i64::MAX as int);
    if space >= line.len() {
        Err(GitIssue::CommitRecord { line })
    } else if !is_oid(sha) {
        Err(GitIssue::InvalidOid { oid: sha })
    } else {
        match seconds {
            None => Err(GitIssue::CommitTime { line }),
            Some(seconds) => if is_instant(seconds) {
                Ok(CommitModel { sha, committed_at: seconds as i64 })
            } else {
                Err(GitIssue::CommitRange { sha, seconds: seconds as i64 })
            },
        }
    }
}

fn parse_commit(line: &str) -> (result: Result<Commit, GitError>)
    ensures
        match result {
            Ok(commit) => commit_of(line@) == Ok::<CommitModel, GitFailure>(commit@),
            Err(error) => commit_of(line@) == Err::<CommitModel, GitFailure>(git_failure(error)),
        },
{
    let length: usize = line.unicode_len();
    let space: usize = position_of(line, ' ', 0);
    if space >= length {
        return Err(GitIssue::CommitRecord { line: line.to_owned() });
    }
    let sha = match validate_oid(line.substring_char(0, space)) {
        Ok(sha) => sha,
        Err(error) => {
            return Err(error);
        },
    };
    match parse_signed(line.substring_char(space + 1, length)) {
        None => Err(GitIssue::CommitTime { line: line.to_owned() }),
        Some(seconds) => {
            if FIRST_INSTANT <= seconds && seconds <= LAST_INSTANT {
                Ok(Commit { sha, committed_at: seconds })
            } else {
                Err(GitIssue::CommitRange { sha, seconds })
            }
        },
    }
}

/// The commits that the first `n` lines of a list name. Empty lines name none.
pub open spec fn commits_of(lines: Seq<Seq<u8>>, n: int) -> Result<Seq<CommitModel>, GitFailure>
    decreases n,
{
    if n <= 0 {
        Ok(Seq::empty())
    } else {
        let line = decoded(line_content(lines[n - 1], n < lines.len()));
        match commits_of(lines, n - 1) {
            Err(failure) => Err(failure),
            Ok(before) => if line.len() == 0 {
                Ok(before)
            } else {
                match commit_of(line) {
                    Ok(commit) => Ok(before.push(commit)),
                    Err(failure) => Err(failure),
                }
            },
        }
    }
}

/// The commits of a list, one line for each.
pub open spec fn listed_commits(listing: Seq<u8>) -> Result<Seq<CommitModel>, GitFailure> {
    let lines = split_bytes(listing, 10);
    if !valid_utf8(listing) {
        Err(GitIssue::ListingEncoding)
    } else {
        commits_of(lines, lines.len() as int)
    }
}

proof fn lemma_commits_fail(lines: Seq<Seq<u8>>, n: int, m: int)
    requires
        n <= m,
        commits_of(lines, n) is Err,
    ensures
        commits_of(lines, m) == commits_of(lines, n),
    decreases m,
{
    if n < m && m > 0 {
        lemma_commits_fail(lines, n, m - 1);
    }
}

/// Reads a list of commits, one line `<object id> <seconds>` for each.
pub fn parse_commits(listing: &[u8]) -> (result: Result<Vec<Commit>, GitError>)
    ensures
        match result {
            Ok(commits) => listed_commits(listing@) == Ok::<Seq<CommitModel>, GitFailure>(
                commit_models(commits@),
            ),
            Err(error) => listed_commits(listing@) == Err::<Seq<CommitModel>, GitFailure>(
                git_failure(error),
            ),
        },
{
    if decode_valid(listing).is_none() {
        return Err(GitIssue::ListingEncoding);
    }
    let lines = byte_parts(listing, 10);
    let ghost all = byte_slices(lines@);
    let mut commits: Vec<Commit> = Vec::new();
    assert(commit_models(commits@) =~= Seq::<CommitModel>::empty());
    let mut k: usize = 0;
    while k < lines.len()
        invariant
            valid_utf8(listing@),
            all == byte_slices(lines@),
            all == split_bytes(listing@, 10),
            k <= lines@.len(),
            commits_of(all, k as int) == Ok::<Seq<CommitModel>, GitFailure>(
                commit_models(commits@),
            ),
        decreases lines@.len() - k,
    {
        let line: &[u8] = lines[k];
        assert(all[k as int] == line@);
        let length: usize = line.len();
        let content: &[u8] = if k + 1 < lines.len() && length > 0 && line[length - 1] == 13 {
            slice_subrange(line, 0, length - 1)
        } else {
            line
        };
        assert(content@ =~= line_content(all[k as int], k + 1 < all.len()));
        let text: &str = decode(content);
        if text.unicode_len() > 0 {
            match parse_commit(text) {
                Ok(commit) => {
                    let ghost before = commit_models(commits@);
                    commits.push(commit);
                    assert(commit_models(commits@) =~= before.push(commit@));
                },
                Err(error) => {
                    proof {
                        lemma_commits_fail(all, k + 1, all.len() as int);
                    }
                    return Err(error);
                },
            }
        }
        k = k + 1;
    }
    Ok(commits)
}

/// Takes the one commit of a list that should name just the given one.
pub fn single_commit(commits: Vec<Commit>, sha: &str) -> (result: Result<Commit, GitError>)
    ensures
        match result {
            Ok(commit) => commits@.len() == 1 && commit@ == commits@[0]@,
            Err(error) => commits@.len() != 1 && git_failure(error) == (GitIssue::RecordCount {
                sha: sha@,
                count: commits@.len() as usize,
            }),
        },
{
    if commits.len() != 1 {
        return Err(GitIssue::RecordCount { sha: sha.to_owned(), count: commits.len() });
    }
    Ok(commits[0].clone())
}

/// Accepts a first-parent chain that starts at the given commit.
pub fn check_chain(commits: Vec<Commit>, sha: &str) -> (result: Result<Vec<Commit>, GitError>)
    ensures
        match result {
            Ok(chain) => commits@.len() > 0 && commits@[0].sha@ == sha@ && chain == commits,
            Err(error) => git_failure(error) == (if commits@.len() == 0 {
                GitIssue::EmptyChain { sha: sha@ }
            } else {
                GitIssue::ChainStart { sha: sha@, first: commits@[0].sha@ }
            }) && (commits@.len() > 0 ==> commits@[0].sha@ != sha@),
        },
{
    if commits.len() == 0 {
        return Err(GitIssue::EmptyChain { sha: sha.to_owned() });
    }
    if !same(commits[0].sha.as_str(), sha) {
        return Err(
            GitIssue::ChainStart { sha: sha.to_owned(), first: commits[0].sha.clone() },
        );
    }
    Ok(commits)
}

/// A repository by the directory that its files stand in.
#[derive(Debug)]
pub struct Repository {
    pub root: String,
}

impl Repository {
    /// Refuses a clone that Git calls shallow.
    pub fn reject_shallow(&self, answer: &str) -> (result: Result<(), GitError>)
        ensures
            match result {
                Ok(()) => answer@ != "true"@,
                Err(error) => answer@ == "true"@ && git_failure(error) == GitIssue::<
                    Seq<char>,
                >::Shallow,
            },
    {
        if same(answer, "true") {
            Err(GitIssue::Shallow)
        } else {
            Ok(())
        }
    }

    /// Refuses a history that a file rewrites.
    pub fn reject_grafts(&self, path: &str, exists: bool) -> (result: Result<(), GitError>)
        ensures
            match result {
                Ok(()) => !exists,
                Err(error) => exists && git_failure(error) == (GitIssue::Grafts { path: path@ }),
            },
    {
        if exists {
            Err(GitIssue::Grafts { path: path.to_owned() })
        } else {
            Ok(())
        }
    }

    /// Refuses a clone whose configuration says that it lacks objects, and a
    /// history that the configuration rewrites. The configuration is a list of
    /// records, each a key and a value behind a line end.
    pub fn reject_partial_clone(&self, listing: &[u8]) -> (result: Result<(), GitError>)
        ensures
            match result {
                Ok(()) => config_failure(listing@) is None,
                Err(error) => config_failure(listing@) == Some(git_failure(error)),
            },
    {
        if decode_valid(listing).is_none() {
            return Err(GitIssue::ConfigEncoding);
        }
        let records = byte_parts(listing, 0);
        let ghost all = byte_slices(records@);
        let mut k: usize = 0;
        while k < records.len()
            invariant
                valid_utf8(listing@),
                all == byte_slices(records@),
                all == split_bytes(listing@, 0),
                k <= records@.len(),
                records_failure(all, k as int) == records_failure(all, 0),
            decreases records@.len() - k,
        {
            assert(all[k as int] == records@[k as int]@);
            match check_record(decode(records[k])) {
                Ok(()) => {},
                Err(error) => {
                    return Err(error);
                },
            }
            k = k + 1;
        }
        Ok(())
    }
}

/// The key of a configuration record.
pub open spec fn record_key(record: Seq<char>) -> Seq<char> {
    record.subrange(0, find_char(record, '\n', 0))
}

/// The value of a configuration record.
pub open spec fn record_value(record: Seq<char>) -> Seq<char> {
    let end = find_char(record, '\n', 0);
    if end < record.len() {
        record.subrange(end + 1, record.len() as int)
    } else {
        Seq::empty()
    }
}

/// The record says that objects of the repository may have to be fetched.
pub open spec fn is_promisor(key: Seq<char>, value: Seq<char>) -> bool {
    ||| key == "extensions.partialclone"@
    ||| "remote."@.is_prefix_of(key) && ".partialclonefilter"@.is_suffix_of(key)
    ||| "remote."@.is_prefix_of(key) && ".promisor"@.is_suffix_of(key) && value != "false"@ && value
        != "0"@ && value.len() != 0
}

/// What a configuration record says against measuring the repository.
pub open spec fn record_failure(record: Seq<char>) -> Option<GitFailure> {
    let key = record_key(record);
    let value = record_value(record);
    if is_promisor(key, value) {
        Some(GitIssue::PartialClone { key })
    } else if key == "core.graftfile"@ {
        Some(GitIssue::GraftFile { value })
    } else {
        None
    }
}

/// What the records from the `k`-th one on say against measuring the repository.
pub open spec fn records_failure(records: Seq<Seq<u8>>, k: int) -> Option<GitFailure>
    decreases records.len() - k,
{
    if k >= records.len() {
        None
    } else {
        match record_failure(decoded(records[k])) {
            Some(failure) => Some(failure),
            None => records_failure(records, k + 1),
        }
    }
}

/// What a configuration says against measuring the repository.
pub open spec fn config_failure(listing: Seq<u8>) -> Option<GitFailure> {
    if !valid_utf8(listing) {
        Some(GitIssue::ConfigEncoding)
    } else {
        records_failure(split_bytes(listing, 0), 0)
    }
}

fn check_record(record: &str) -> (result: Result<(), GitError>)
    ensures
        match result {
            Ok(()) => record_failure(record@) is None,
            Err(error) => record_failure(record@) == Some(git_failure(error)),
        },
{
    let length: usize = record.unicode_len();
    let end: usize = position_of(record, '\n', 0);
    let key: &str = record.substring_char(0, end);
    let value: &str = if end < length {
        record.substring_char(end + 1, length)
    } else {
        record.substring_char(length, length)
    };
    assert(value@ =~= record_value(record@));
    let promisor: bool = same(key, "extensions.partialclone") || (starts_with(key, "remote.")
        && ends_with(key, ".partialclonefilter")) || (starts_with(key, "remote.") && ends_with(
        key,
        ".promisor",
    ) && !same(value, "false") && !same(value, "0") && value.unicode_len() != 0);
    if promisor {
        return Err(GitIssue::PartialClone { key: key.to_owned() });
    }
    if same(key, "core.graftfile") {
        return Err(GitIssue::GraftFile { value: value.to_owned() });
    }
    Ok(())
}

/// One entry of a tree, with the path from the root of the repository. The mode
/// tells regular files from links and submodules, which are never followed.
#[derive(Debug)]
pub struct TreeEntry {
    pub path: String,
    pub oid: String,
    pub mode: String,
}

pub struct EntryModel {
    pub path: Seq<char>,
    pub oid: Seq<char>,
    pub mode: Seq<char>,
}

impl View for TreeEntry {
    type V = EntryModel;

    open spec fn view(&self) -> EntryModel {
        EntryModel { path: self.path@, oid: self.oid@, mode: self.mode@ }
    }
}

impl Clone for TreeEntry {
    fn clone(&self) -> (copy: Self)
        ensures
            copy@ == self@,
    {
        TreeEntry { path: self.path.clone(), oid: self.oid.clone(), mode: self.mode.clone() }
    }
}

pub open spec fn entry_models(entries: Seq<TreeEntry>) -> Seq<EntryModel> {
    entries.map_values(|e: TreeEntry| e@)
}

/// The mode of a regular or an executable file.
pub open spec fn is_regular_mode(mode: Seq<char>) -> bool {
    mode == "100644"@ || mode == "100755"@
}

impl TreeEntry {
    /// The entry is a regular or an executable file.
    pub fn is_regular(&self) -> (r: bool)
        ensures
            r == is_regular_mode(self.mode@),
    {
        same(self.mode.as_str(), "100644") || same(self.mode.as_str(), "100755")
    }
}

/// The text is the mode of an entry: six digits.
pub open spec fn is_mode(mode: Seq<char>) -> bool {
    mode.len() == 6 && crate::format::is_digits(mode)
}

fn valid_mode(mode: &str) -> (r: bool)
    ensures
        r == is_mode(mode@),
{
    if mode.unicode_len() != 6 {
        return false;
    }
    let mut k: usize = 0;
    while k < 6
        invariant
            k <= 6 == mode@.len(),
            forall|n: int| 0 <= n < k ==> is_digit(#[trigger] mode@[n]),
        decreases 6 - k,
    {
        let c: char = mode.get_char(k);
        if !('0' <= c && c <= '9') {
            assert(!is_digit(mode@[k as int]));
            return false;
        }
        k = k + 1;
    }
    true
}

/// The entry that a record `<mode> <type> <object id> TAB <path>` names.
pub open spec fn entry_of(record: Seq<u8>, sha: Seq<char>) -> Result<EntryModel, GitFailure> {
    let tab = find_byte(record, 9, 0);
    let head = record.subrange(0, tab);
    let tail = record.subrange(tab + 1, record.len() as int);
    let header = decoded(head);
    let path = decoded(tail);
    let fields = split(header, ' ');
    if tab >= record.len() || !valid_utf8(head) {
        Err(GitIssue::TreeRecord { sha })
    } else if !valid_utf8(tail) {
        Err(GitIssue::PathEncoding { sha, path: lossy(tail) })
    } else if fields.len() != 3 {
        Err(GitIssue::TreeHeader { header, sha })
    } else if !is_mode(fields[0]) {
        Err(GitIssue::TreeMode { mode: fields[0], sha })
    } else if path.len() == 0 {
        Err(GitIssue::EmptyPath { header, sha })
    } else if !(fields[1] == "blob"@ || fields[1] == "commit"@ || fields[1] == "tree"@) {
        Err(GitIssue::ObjectType { kind: fields[1], sha })
    } else if !is_oid(fields[2]) {
        Err(GitIssue::InvalidOid { oid: fields[2] })
    } else {
        Ok(EntryModel { path, oid: fields[2], mode: fields[0] })
    }
}

/// Reads a record `<mode> <type> <object id> TAB <path>` of the tree of a commit.
pub fn parse_tree_entry(record: &[u8], sha: &str) -> (result: Result<TreeEntry, GitError>)
    ensures
        match result {
            Ok(entry) => entry_of(record@, sha@) == Ok::<EntryModel, GitFailure>(entry@),
            Err(error) => entry_of(record@, sha@) == Err::<EntryModel, GitFailure>(
                git_failure(error),
            ),
        },
{
    let length: usize = record.len();
    let tab: usize = byte_position(record, 9, 0);
    if tab >= length {
        return Err(GitIssue::TreeRecord { sha: sha.to_owned() });
    }
    let header: &str = match decode_valid(slice_subrange(record, 0, tab)) {
        Some(header) => header,
        None => {
            return Err(GitIssue::TreeRecord { sha: sha.to_owned() });
        },
    };
    let tail: &[u8] = slice_subrange(record, tab + 1, length);
    let path: &str = match decode_valid(tail) {
        Some(path) => path,
        None => {
            return Err(GitIssue::PathEncoding { sha: sha.to_owned(), path: lossy_text(tail) });
        },
    };
    let fields = split_text(header, ' ');
    let ghost parts = slices(fields@);
    assert(parts.len() == fields@.len());
    if fields.len() != 3 {
        return Err(GitIssue::TreeHeader { header: header.to_owned(), sha: sha.to_owned() });
    }
    assert(parts[0] == fields@[0]@ && parts[1] == fields@[1]@ && parts[2] == fields@[2]@);
    let (mode, kind, oid) = (fields[0], fields[1], fields[2]);
    if !valid_mode(mode) {
        return Err(GitIssue::TreeMode { mode: mode.to_owned(), sha: sha.to_owned() });
    }
    if path.unicode_len() == 0 {
        return Err(GitIssue::EmptyPath { header: header.to_owned(), sha: sha.to_owned() });
    }
    if !(same(kind, "blob") || same(kind, "commit") || same(kind, "tree")) {
        return Err(GitIssue::ObjectType { kind: kind.to_owned(), sha: sha.to_owned() });
    }
    match validate_oid(oid) {
        Ok(oid) => Ok(TreeEntry { path: path.to_owned(), oid, mode: mode.to_owned() }),
        Err(error) => Err(error),
    }
}

/// Entries stand by their paths.
pub open spec fn path_order() -> spec_fn(EntryModel, EntryModel) -> bool {
    |a: EntryModel, b: EntryModel| text_less(a.path, b.path)
}

/// The order of entries by their paths is a strict one.
pub proof fn paths_are_ordered()
    ensures
        strict_order(path_order()),
{
    let before = path_order();
    assert forall|a: EntryModel, b: EntryModel| #[trigger] before(a, b) implies !before(b, a) by {
        crate::text::text_order_is_strict(a.path, b.path, b.path);
    }
    assert forall|a: EntryModel, b: EntryModel, c: EntryModel| #[trigger]
        before(a, b) && !before(c, b) implies #[trigger] before(a, c) by {
        crate::text::text_order_is_strict(a.path, b.path, c.path);
    }
}

/// The entries that the first `n` records name, in order. Empty records name
/// none.
pub open spec fn entries_of(records: Seq<Seq<u8>>, sha: Seq<char>, n: int) -> Result<
    Seq<EntryModel>,
    GitFailure,
>
    decreases n,
{
    if n <= 0 {
        Ok(Seq::empty())
    } else {
        match entries_of(records, sha, n - 1) {
            Err(failure) => Err(failure),
            Ok(before) => if records[n - 1].len() == 0 {
                Ok(before)
            } else {
                match entry_of(records[n - 1], sha) {
                    Ok(entry) => Ok(insert_sorted(before, entry, path_order())),
                    Err(failure) => Err(failure),
                }
            },
        }
    }
}

/// The entries of a tree, sorted by their paths.
pub open spec fn tree_entries(output: Seq<u8>, sha: Seq<char>) -> Result<Seq<EntryModel>, GitFailure> {
    let records = split_bytes(output, 0);
    entries_of(records, sha, records.len() as int)
}

proof fn lemma_entries_fail(records: Seq<Seq<u8>>, sha: Seq<char>, n: int, m: int)
    requires
        n <= m,
        entries_of(records, sha, n) is Err,
    ensures
        entries_of(records, sha, m) == entries_of(records, sha, n),
    decreases m,
{
    if n < m && m > 0 {
        lemma_entries_fail(records, sha, n, m - 1);
    }
}

/// The entries of a tree stand in the order of their paths.
pub proof fn tree_entries_are_in_order(output: Seq<u8>, sha: Seq<char>)
    requires
        tree_entries(output, sha) is Ok,
    ensures
        in_order(tree_entries(output, sha)->Ok_0, path_order()),
{
    let records = split_bytes(output, 0);
    lemma_entries_in_order(records, sha, records.len() as int);
}

proof fn lemma_entries_in_order(records: Seq<Seq<u8>>, sha: Seq<char>, n: int)
    requires
        entries_of(records, sha, n) is Ok,
    ensures
        in_order(entries_of(records, sha, n)->Ok_0, path_order()),
    decreases n,
{
    if n > 0 {
        lemma_entries_in_order(records, sha, n - 1);
        paths_are_ordered();
        if records[n - 1].len() > 0 {
            lemma_insert_in_order(
                entries_of(records, sha, n - 1)->Ok_0,
                entry_of(records[n - 1], sha)->Ok_0,
                path_order(),
            );
        }
    }
}

fn insert_entry(entries: &mut Vec<TreeEntry>, entry: TreeEntry)
    ensures
        entry_models(final(entries)@) == insert_sorted(
            entry_models(old(entries)@),
            entry@,
            path_order(),
        ),
{
    let ghost known = entry_models(entries@);
    let ghost key = path_order();
    let mut at: usize = entries.len();
    while at > 0 && less(entry.path.as_str(), entries[at - 1].path.as_str())
        invariant
            at <= entries@.len(),
            key == path_order(),
            known == entry_models(entries@),
            forall|k: int| at <= k < known.len() ==> key(entry@, #[trigger] known[k]),
        decreases at,
    {
        at = at - 1;
        assert(known[at as int] == entries@[at as int]@);
        assert(key(entry@, known[at as int]));
    }
    proof {
        if at > 0 {
            assert(known[at - 1] == entries@[at - 1]@);
        }
        assert(at == 0 || !key(entry@, known[at - 1]));
        lemma_insert_at(known, entry@, key, at as int);
    }
    entries.insert(at, entry);
    assert(entry_models(entries@) =~= known.insert(at as int, entry@));
}

/// Reads the tree of a commit: records that end in a zero byte, sorted by path.
pub fn parse_entries(output: &[u8], sha: &str) -> (result: Result<Vec<TreeEntry>, GitError>)
    ensures
        match result {
            Ok(entries) => tree_entries(output@, sha@) == Ok::<Seq<EntryModel>, GitFailure>(
                entry_models(entries@),
            ),
            Err(error) => tree_entries(output@, sha@) == Err::<Seq<EntryModel>, GitFailure>(
                git_failure(error),
            ),
        },
{
    let records = byte_parts(output, 0);
    let ghost all = byte_slices(records@);
    let mut entries: Vec<TreeEntry> = Vec::new();
    assert(entry_models(entries@) =~= Seq::<EntryModel>::empty());
    let mut k: usize = 0;
    while k < records.len()
        invariant
            all == byte_slices(records@),
            all == split_bytes(output@, 0),
            k <= records@.len(),
            entries_of(all, sha@, k as int) == Ok::<Seq<EntryModel>, GitFailure>(
                entry_models(entries@),
            ),
        decreases records@.len() - k,
    {
        assert(all[k as int] == records@[k as int]@);
        if records[k].len() > 0 {
            match parse_tree_entry(records[k], sha) {
                Ok(entry) => {
                    insert_entry(&mut entries, entry);
                },
                Err(error) => {
                    proof {
                        lemma_entries_fail(all, sha@, k + 1, all.len() as int);
                    }
                    return Err(error);
                },
            }
        }
        k = k + 1;
    }
    Ok(entries)
}

/// The one commit that Git names for a revision, and lists.
pub open spec fn resolved_commit(answer: Seq<char>, listing: Seq<u8>) -> Result<
    CommitModel,
    GitFailure,
> {
    if !is_oid(answer) {
        Err(GitIssue::InvalidOid { oid: answer })
    } else {
        match listed_commits(listing) {
            Ok(commits) => if commits.len() == 1 {
                Ok(commits[0])
            } else {
                Err(GitIssue::RecordCount { sha: answer, count: commits.len() as usize })
            },
            Err(failure) => Err(failure),
        }
    }
}

/// The first-parent chain of a commit, newest first, as Git lists it.
pub open spec fn listed_chain(head: Seq<char>, shallow: Seq<char>, listing: Seq<u8>) -> Result<
    Seq<CommitModel>,
    GitFailure,
> {
    if !is_oid(head) {
        Err(GitIssue::InvalidOid { oid: head })
    } else if shallow == "true"@ {
        Err(GitIssue::Shallow)
    } else {
        match listed_commits(listing) {
            Ok(commits) => if commits.len() == 0 {
                Err(GitIssue::EmptyChain { sha: head })
            } else if commits[0].sha != head {
                Err(GitIssue::ChainStart { sha: head, first: commits[0].sha })
            } else {
                Ok(commits)
            },
            Err(failure) => Err(failure),
        }
    }
}

/// A chain is never empty and starts at its head, and there is none of a shallow
/// history, whatever Git lists.
pub proof fn chains_are_whole(head: Seq<char>, shallow: Seq<char>, listing: Seq<u8>)
    ensures
        shallow == "true"@ ==> listed_chain(head, shallow, listing) is Err,
        listed_chain(head, shallow, listing) matches Ok(chain) ==> chain.len() > 0 && chain[0].sha
            == head,
{
}

/// The entries of a commit's tree by path, as Git lists them.
pub open spec fn listed_entries(sha: Seq<char>, listing: Seq<u8>) -> Result<
    Seq<EntryModel>,
    GitFailure,
> {
    if !is_oid(sha) {
        Err(GitIssue::InvalidOid { oid: sha })
    } else {
        tree_entries(listing, sha)
    }
}

impl Repository {
    /// The commit that a revision names, from what Git answers and lists for it.
    pub fn resolve(&self, answer: &str, listing: &[u8]) -> (result: Result<Commit, GitError>)
        ensures
            match result {
                Ok(commit) => resolved_commit(answer@, listing@) == Ok::<CommitModel, GitFailure>(
                    commit@,
                ),
                Err(error) => resolved_commit(answer@, listing@) == Err::<CommitModel, GitFailure>(
                    git_failure(error),
                ),
            },
    {
        let sha = match validate_oid(answer) {
            Ok(sha) => sha,
            Err(error) => {
                return Err(error);
            },
        };
        match parse_commits(listing) {
            Ok(commits) => {
                assert(commit_models(commits@).len() == commits@.len());
                single_commit(commits, sha.as_str())
            },
            Err(error) => Err(error),
        }
    }

    /// The first-parent chain of a commit, newest first, from what Git says of the
    /// clone and lists.
    pub fn first_parent_chain(&self, head: &Commit, shallow: &str, listing: &[u8]) -> (result:
        Result<Vec<Commit>, GitError>)
        ensures
            match result {
                Ok(chain) => listed_chain(head.sha@, shallow@, listing@) == Ok::<
                    Seq<CommitModel>,
                    GitFailure,
                >(commit_models(chain@)),
                Err(error) => listed_chain(head.sha@, shallow@, listing@) == Err::<
                    Seq<CommitModel>,
                    GitFailure,
                >(git_failure(error)),
            },
    {
        let sha = match validate_oid(head.sha.as_str()) {
            Ok(sha) => sha,
            Err(error) => {
                return Err(error);
            },
        };
        match self.reject_shallow(shallow) {
            Ok(()) => {},
            Err(error) => {
                return Err(error);
            },
        }
        match parse_commits(listing) {
            Ok(commits) => {
                assert(commit_models(commits@).len() == commits@.len());
                if commits.len() > 0 {
                    assert(commit_models(commits@)[0] == commits@[0]@);
                }
                check_chain(commits, sha.as_str())
            },
            Err(error) => Err(error),
        }
    }

    /// The entries of a commit's tree by path, from what Git lists.
    pub fn entries(&self, sha: &str, listing: &[u8]) -> (result: Result<Vec<TreeEntry>, GitError>)
        ensures
            match result {
                Ok(entries) => listed_entries(sha@, listing@) == Ok::<Seq<EntryModel>, GitFailure>(
                    entry_models(entries@),
                ),
                Err(error) => listed_entries(sha@, listing@) == Err::<Seq<EntryModel>, GitFailure>(
                    git_failure(error),
                ),
            },
    {
        match validate_oid(sha) {
            Ok(_) => parse_entries(listing, sha),
            Err(error) => Err(error),
        }
    }
}

/// The size that the header `<object id> blob <size>` of an answer names.
pub open spec fn batch_size(header: Seq<char>, oid: Seq<char>) -> Result<usize, GitFailure> {
    let fields = split(header, ' ');
    if fields.len() < 2 {
        Err(GitIssue::BatchHeader { header })
    } else if fields[1] == "missing"@ {
        Err(GitIssue::MissingObject { oid })
    } else if fields[1] != "blob"@ {
        Err(GitIssue::NotBlob { oid, kind: fields[1] })
    } else if fields[0] != oid {
        Err(GitIssue::WrongObject { echoed: fields[0], oid })
    } else if fields.len() < 3 {
        Err(GitIssue::BatchHeader { header })
    } else {
        match unsigned(fields[2], usize::MAX as int) {
            None => Err(GitIssue::ObjectSize { header }),
            Some(size) => if fields.len() > 3 {
                Err(GitIssue::BatchHeader { header })
            } else {
                Ok(size as usize)
            },
        }
    }
}

/// Reads the header `<object id> blob <size>` of the answer for an object.
pub fn parse_batch_header(header: &str, oid: &str) -> (result: Result<usize, GitError>)
    ensures
        match result {
            Ok(size) => batch_size(header@, oid@) == Ok::<usize, GitFailure>(size),
            Err(error) => batch_size(header@, oid@) == Err::<usize, GitFailure>(git_failure(error)),
        },
{
    let fields = split_text(header, ' ');
    let ghost parts = slices(fields@);
    assert(parts.len() == fields@.len());
    if fields.len() < 2 {
        return Err(GitIssue::BatchHeader { header: header.to_owned() });
    }
    assert(parts[0] == fields@[0]@ && parts[1] == fields@[1]@);
    let (echoed, kind) = (fields[0], fields[1]);
    if same(kind, "missing") {
        return Err(GitIssue::MissingObject { oid: oid.to_owned() });
    }
    if !same(kind, "blob") {
        return Err(GitIssue::NotBlob { oid: oid.to_owned(), kind: kind.to_owned() });
    }
    if !same(echoed, oid) {
        return Err(GitIssue::WrongObject { echoed: echoed.to_owned(), oid: oid.to_owned() });
    }
    if fields.len() < 3 {
        return Err(GitIssue::BatchHeader { header: header.to_owned() });
    }
    assert(parts[2] == fields@[2]@);
    match parse_unsigned(fields[2], usize::MAX as u64) {
        None => Err(GitIssue::ObjectSize { header: header.to_owned() }),
        Some(size) => {
            if fields.len() > 3 {
                Err(GitIssue::BatchHeader { header: header.to_owned() })
            } else {
                Ok(size as usize)
            }
        },
    }
}

/// Accepts the byte that ends the content of an object.
pub fn check_terminator(byte: u8, oid: &str) -> (result: Result<(), GitError>)
    ensures
        match result {
            Ok(()) => byte == 10,
            Err(error) => byte != 10 && git_failure(error) == (GitIssue::Terminator { oid: oid@ }),
        },
{
    if byte == 10 {
        Ok(())
    } else {
        Err(GitIssue::Terminator { oid: oid.to_owned() })
    }
}

/// A stream of objects. After a failure the place in the stream is unknown, so
/// nothing more is read from it.
pub struct BlobStream {
    pub failed: bool,
}

impl BlobStream {
    /// A stream of which nothing was read.
    pub fn new() -> (stream: Self)
        ensures
            !stream.failed,
    {
        BlobStream { failed: false }
    }

    /// Accepts the id of an object that is to be read.
    pub fn request(&self, oid: &str) -> (result: Result<String, GitError>)
        ensures
            result is Ok <==> !self.failed && is_oid(oid@),
            result matches Ok(text) ==> text@ == oid@,
            result matches Err(error) ==> git_failure(error) == (if self.failed {
                GitIssue::UnusableReader
            } else {
                GitIssue::InvalidOid { oid: oid@ }
            }),
    {
        if self.failed {
            return Err(GitIssue::UnusableReader);
        }
        validate_oid(oid)
    }

    /// Takes into account whether an object could be read.
    pub fn note(&mut self, ok: bool)
        ensures
            final(self).failed == (old(self).failed || !ok),
    {
        if !ok {
            self.failed = true;
        }
    }
}

} // verus!
