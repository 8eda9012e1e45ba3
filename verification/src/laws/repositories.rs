//! What is read out of Git, and what is refused.

use vstd::prelude::*;
use vstd::utf8::*;

use crate::calendar::is_instant;
use crate::format::{is_digit, signed, unsigned};
use crate::git::{
    banner_version, batch_size, commit_of, commits_of, config_failure, entry_of, is_mode, is_oid,
    is_promisor, is_supported, line_content, listed_chain, listed_commits, listed_entries,
    record_failure, record_key, record_value, records_failure, resolved_commit, revision_failure,
    scan_white, tree_entries, trim_to_digit, version_of, version_word, without_line_ends,
    CommitModel, EntryModel, GitFailure, GitIssue,
};
use crate::laws::numbers::{all_digits, number, numbers_are_digits};
use crate::laws::texts::{bytes_are_split, texts_are_split};
use crate::text::{decoded, is_white, split, split_bytes};

verus! {

/// An object id is forty or sixty-four lower-case hexadecimal digits.
pub proof fn object_ids(oid: Seq<char>)
    ensures
        is_oid(oid) <==> (oid.len() == 40 || oid.len() == 64) && forall|k: int|
            0 <= k < oid.len() ==> '0' <= #[trigger] oid[k] <= '9' || 'a' <= oid[k] <= 'f',
{
    if is_oid(oid) {
        assert forall|k: int| 0 <= k < oid.len() implies '0' <= #[trigger] oid[k] <= '9' || 'a'
            <= oid[k] <= 'f' by {
            assert(crate::digest::is_lower_hex(oid[k]));
        }
    }
}

/// Git is new enough from version 2.45 on.
pub proof fn supported_versions(major: u32, minor: u32)
    ensures
        is_supported((major, minor)) <==> major >= 3 || major == 2 && minor >= 45,
{
}

proof fn lemma_trimmed(digits: Seq<char>, rest: Seq<char>)
    requires
        digits.len() > 0,
        '0' <= digits.last() <= '9',
        forall|k: int| 0 <= k < rest.len() ==> !('0' <= #[trigger] rest[k] <= '9'),
    ensures
        trim_to_digit(digits + rest) == digits,
    decreases rest.len(),
{
    let s = digits + rest;
    if rest.len() == 0 {
        assert(s =~= digits);
    } else {
        assert(s.last() == rest.last());
        assert(!('0' <= rest[rest.len() - 1] <= '9'));
        assert(s.drop_last() =~= digits + rest.drop_last());
        lemma_trimmed(digits, rest.drop_last());
    }
}

/// A version is read from its first two numbers, whatever is behind the second one.
pub proof fn versions_are_two_numbers(
    major: Seq<char>,
    minor: Seq<char>,
    suffix: Seq<char>,
    more: Seq<char>,
)
    requires
        all_digits(major),
        all_digits(minor),
        number(major) <= u32::MAX,
        number(minor) <= u32::MAX,
        forall|k: int|
            0 <= k < suffix.len() ==> !('0' <= #[trigger] suffix[k] <= '9') && suffix[k] != '.',
    ensures
        version_of(major + seq!['.'] + (minor + suffix)) == Some(
            (number(major) as u32, number(minor) as u32),
        ),
        version_of(major + seq!['.'] + ((minor + suffix) + seq!['.'] + more)) == Some(
            (number(major) as u32, number(minor) as u32),
        ),
{
    let second = minor + suffix;
    if major.contains('.') {
        let k = choose|k: int| 0 <= k < major.len() && major[k] == '.';
        assert('0' <= major[k] <= '9');
    }
    if second.contains('.') {
        let k = choose|k: int| 0 <= k < second.len() && second[k] == '.';
        if k < minor.len() {
            assert('0' <= minor[k] <= '9');
        } else {
            assert(suffix[k - minor.len()] == '.');
        }
    }
    texts_are_split(major, '.', second);
    texts_are_split(second, '.', more);
    texts_are_split(major, '.', second + seq!['.'] + more);
    assert('0' <= minor[minor.len() - 1] <= '9');
    lemma_trimmed(minor, suffix);
    assert('0' <= major[0] <= '9');
    assert('0' <= minor[0] <= '9');
    numbers_are_digits(major, u32::MAX as int);
    numbers_are_digits(minor, u32::MAX as int);
    assert(split(major + seq!['.'] + second, '.')[0] == major);
    assert(split(major + seq!['.'] + second, '.')[1] == second);
    let long = major + seq!['.'] + (second + seq!['.'] + more);
    assert(split(long, '.')[0] == major);
    assert(split(long, '.')[1] == second);
}

/// A version of one number has no second one.
pub proof fn versions_of_one_number(major: Seq<char>)
    requires
        all_digits(major),
        number(major) <= u32::MAX,
    ensures
        version_of(major) == Some((number(major) as u32, 0u32)),
{
    if major.contains('.') {
        let k = choose|k: int| 0 <= k < major.len() && major[k] == '.';
        assert('0' <= major[k] <= '9');
    }
    texts_are_split(major, '.', Seq::empty());
    assert('0' <= major[0] <= '9');
    numbers_are_digits(major, u32::MAX as int);
    reveal_strlit("0");
    let zero = "0"@;
    assert(trim_to_digit(zero) == zero);
    assert(all_digits(zero));
    reveal_with_fuel(number, 3);
    assert(number(zero) == 0);
    numbers_are_digits(zero, u32::MAX as int);
}

/// Records of a tree that are empty are passed over, every other is an entry, kept in
/// the order of paths, and the first that is none decides.
pub proof fn entries_are_collected(records: Seq<Seq<u8>>, sha: Seq<char>, n: int)
    requires
        0 <= n < records.len(),
    ensures
        crate::git::entries_of(records, sha, 0) == Ok::<_, GitFailure>(Seq::<EntryModel>::empty()),
        ({
            let before = crate::git::entries_of(records, sha, n);
            let after = crate::git::entries_of(records, sha, n + 1);
            let entry = entry_of(records[n], sha);
            &&& before is Err ==> after == before
            &&& before is Ok && records[n].len() == 0 ==> after == before
            &&& before is Ok && records[n].len() > 0 && entry is Err ==> after == Err::<
                Seq<EntryModel>,
                _,
            >(entry->Err_0)
            &&& before is Ok && records[n].len() > 0 && entry is Ok ==> after == Ok::<
                _,
                GitFailure,
            >(
                crate::sort::insert_sorted(
                    before->Ok_0,
                    entry->Ok_0,
                    |a: EntryModel, b: EntryModel| crate::text::text_less(a.path, b.path),
                ),
            )
        }),
{
    assert(crate::git::path_order() =~= |a: EntryModel, b: EntryModel|
        crate::text::text_less(a.path, b.path));
}

proof fn lemma_scan(s: Seq<char>, at: int, n: int, is: bool)
    requires
        0 <= at <= n <= s.len(),
        forall|k: int| at <= k < n ==> is_white(#[trigger] s[k]) != is,
        n < s.len() ==> is_white(s[n]) == is,
    ensures
        scan_white(s, at, is) == n,
    decreases n - at,
{
    if at < n {
        assert(is_white(s[at]) != is);
        lemma_scan(s, at + 1, n, is);
    }
}

/// A text without white characters.
pub open spec fn is_word(word: Seq<char>) -> bool {
    word.len() > 0 && forall|k: int| 0 <= k < word.len() ==> !is_white(#[trigger] word[k])
}

/// The version of Git is the first word of its banner that starts with a digit.
pub proof fn banners_name_a_version(word: Seq<char>, rest: Seq<char>, at: int, banner: Seq<char>)
    requires
        is_word(word),
        rest.len() > 0 ==> is_white(rest[0]),
        0 <= at,
        at + word.len() + rest.len() == banner.len(),
        banner.subrange(at, banner.len() as int) == word + rest,
        '0' <= word[0] <= '9',
    ensures
        version_word(banner, at) == Some(word),
        at == 0 ==> banner_version(banner) == version_of(word),
{
    let tail = banner.subrange(at, banner.len() as int);
    let end = at + word.len();
    assert forall|k: int| at <= k < end implies is_white(#[trigger] banner[k]) != true by {
        assert(banner[k] == tail[k - at]);
        assert(tail[k - at] == word[k - at]);
    }
    if end < banner.len() {
        assert(banner[end] == tail[end - at]);
        assert(tail[end - at] == rest[0]);
    }
    assert(banner[at] == tail[0] && tail[0] == word[0]);
    lemma_scan(banner, at, at, false);
    lemma_scan(banner, at, end, true);
    assert(banner.subrange(at, end) =~= word);
}

/// A word of the banner that starts with no digit is passed over.
pub proof fn other_words_are_passed_over(
    word: Seq<char>,
    rest: Seq<char>,
    at: int,
    banner: Seq<char>,
)
    requires
        is_word(word),
        rest.len() > 0 ==> is_white(rest[0]),
        0 <= at,
        at + word.len() + rest.len() == banner.len(),
        banner.subrange(at, banner.len() as int) == word + rest,
        !('0' <= word[0] <= '9'),
    ensures
        version_word(banner, at) == version_word(banner, at + word.len()),
{
    let tail = banner.subrange(at, banner.len() as int);
    let end = at + word.len();
    assert forall|k: int| at <= k < end implies is_white(#[trigger] banner[k]) != true by {
        assert(banner[k] == tail[k - at]);
        assert(tail[k - at] == word[k - at]);
    }
    if end < banner.len() {
        assert(banner[end] == tail[end - at]);
        assert(tail[end - at] == rest[0]);
    }
    assert(banner[at] == tail[0] && tail[0] == word[0]);
    lemma_scan(banner, at, at, false);
    lemma_scan(banner, at, end, true);
}

/// A revision must hold something, and neither a null character nor a line feed.
pub proof fn revisions_that_are_refused(revision: Seq<char>)
    ensures
        revision_failure(revision) is None <==> revision.len() > 0 && !revision.contains('\0')
            && !revision.contains('\n'),
        revision_failure(revision) == Some(GitIssue::<Seq<char>>::EmptyRevision)
            <==> revision.len() == 0,
        revision_failure(revision) == Some(GitIssue::ControlCharacter { revision })
            <==> revision.contains('\0') || revision.contains('\n'),
{
}

/// Line ends are cut off the end of an answer, all of them and nothing else.
pub proof fn answers_lose_their_line_ends(text: Seq<char>)
    ensures
        ({
            let kept = without_line_ends(text);
            &&& kept.len() <= text.len()
            &&& text.subrange(0, kept.len() as int) == kept
            &&& kept.len() > 0 ==> kept.last() != '\n' && kept.last() != '\r'
            &&& forall|k: int|
                kept.len() <= k < text.len() ==> #[trigger] text[k] == '\n' || text[k] == '\r'
        }),
    decreases text.len(),
{
    if text.len() > 0 && (text.last() == '\n' || text.last() == '\r') {
        answers_lose_their_line_ends(text.drop_last());
        let kept = without_line_ends(text);
        assert(text.subrange(0, kept.len() as int) =~= text.drop_last().subrange(
            0,
            kept.len() as int,
        ));
        assert forall|k: int| kept.len() <= k < text.len() implies #[trigger] text[k] == '\n'
            || text[k] == '\r' by {
            if k < text.len() - 1 {
                assert(text.drop_last()[k] == text[k]);
            }
        }
    } else {
        assert(text.subrange(0, text.len() as int) =~= text);
    }
}

/// A commit is listed as its id, a blank and its time in seconds.
pub proof fn commits_are_listed(sha: Seq<char>, time: Seq<char>)
    requires
        !sha.contains(' '),
    ensures
        ({
            let line = sha + seq![' '] + time;
            let seconds = signed(time, i64::MAX as int);
            &&& commit_of(sha) == Err::<CommitModel, _>(GitIssue::CommitRecord { line: sha })
            &&& !is_oid(sha) ==> commit_of(line) == Err::<CommitModel, _>(
                GitIssue::InvalidOid { oid: sha },
            )
            &&& is_oid(sha) && seconds is None ==> commit_of(line) == Err::<CommitModel, _>(
                GitIssue::CommitTime { line },
            )
            &&& is_oid(sha) && seconds is Some && is_instant(seconds->0) ==> commit_of(line) == Ok::<
                _,
                GitFailure,
            >(CommitModel { sha, committed_at: seconds->0 as i64 })
            &&& is_oid(sha) && seconds is Some && !is_instant(seconds->0) ==> commit_of(line)
                == Err::<CommitModel, _>(
                GitIssue::CommitRange { sha, seconds: seconds->0 as i64 },
            )
        }),
{
    texts_are_split(sha, ' ', time);
    let line = sha + seq![' '] + time;
    let n = sha.len() as int;
    assert(line.subrange(0, n) =~= sha);
    assert(line.subrange(n + 1, line.len() as int) =~= time);
}

/// A carriage return at the end of a line that a line feed ends is part of the line end.
pub proof fn carriage_returns_end_lines(line: Seq<u8>)
    ensures
        line_content(line.push('\r' as u8), true) == line,
        line_content(line.push('\r' as u8), false) == line.push('\r' as u8),
        line.len() == 0 || line.last() != '\r' as u8 ==> line_content(line, true) == line,
        line_content(line, false) == line,
{
    assert('\r' as u8 == 13u8);
    assert(line.push(13u8).drop_last() =~= line);
}

/// A list of commits must be UTF-8. Empty lines are passed over, every other line is a
/// commit, and the first line that is none decides.
pub proof fn commit_lists(listing: Seq<u8>, lines: Seq<Seq<u8>>, n: int)
    requires
        0 <= n < lines.len(),
    ensures
        !valid_utf8(listing) ==> listed_commits(listing) == Err::<Seq<CommitModel>, _>(
            GitIssue::<Seq<char>>::ListingEncoding,
        ),
        valid_utf8(listing) ==> listed_commits(listing) == commits_of(
            split_bytes(listing, '\n' as u8),
            split_bytes(listing, '\n' as u8).len() as int,
        ),
        commits_of(lines, 0) == Ok::<_, GitFailure>(Seq::<CommitModel>::empty()),
        ({
            let line = decoded(line_content(lines[n], n + 1 < lines.len()));
            let before = commits_of(lines, n);
            let after = commits_of(lines, n + 1);
            &&& before is Err ==> after == before
            &&& before is Ok && line.len() == 0 ==> after == before
            &&& before is Ok && line.len() > 0 && commit_of(line) is Ok ==> after == Ok::<
                _,
                GitFailure,
            >(before->Ok_0.push(commit_of(line)->Ok_0))
            &&& before is Ok && line.len() > 0 && commit_of(line) is Err ==> after == Err::<
                Seq<CommitModel>,
                _,
            >(commit_of(line)->Err_0)
        }),
{
    assert('\n' as u8 == 10u8);
}

/// A mode is six digits.
pub proof fn modes_are_six_digits(mode: Seq<char>)
    ensures
        is_mode(mode) <==> mode.len() == 6 && all_digits(mode),
{
    if is_mode(mode) {
        assert forall|k: int| 0 <= k < mode.len() implies '0' <= #[trigger] mode[k] <= '9' by {
            assert(is_digit(mode[k]));
        }
    }
}

/// An entry of a tree is listed as its mode, its type and its id, with blanks between
/// them, then a tab and its path.
pub proof fn entries_are_listed(
    head: Seq<u8>,
    tail: Seq<u8>,
    mode: Seq<char>,
    kind: Seq<char>,
    oid: Seq<char>,
    sha: Seq<char>,
)
    requires
        !head.contains('\t' as u8),
        valid_utf8(head),
        valid_utf8(tail),
        decode_utf8(head) == mode + seq![' '] + (kind + seq![' '] + oid),
        !mode.contains(' '),
        !kind.contains(' '),
        !oid.contains(' '),
    ensures
        ({
            let record = head + seq!['\t' as u8] + tail;
            let path = decode_utf8(tail);
            let found = entry_of(record, sha);
            let known = kind == "blob"@ || kind == "tree"@ || kind == "commit"@;
            &&& found is Ok <==> is_mode(mode) && path.len() > 0 && known && is_oid(oid)
            &&& found is Ok ==> found->Ok_0 == (EntryModel { path, oid, mode })
            &&& !is_mode(mode) ==> found == Err::<EntryModel, _>(GitIssue::TreeMode { mode, sha })
            &&& is_mode(mode) && path.len() == 0 ==> found == Err::<EntryModel, _>(
                GitIssue::EmptyPath { header: decode_utf8(head), sha },
            )
            &&& is_mode(mode) && path.len() > 0 && !known ==> found == Err::<EntryModel, _>(
                GitIssue::ObjectType { kind, sha },
            )
            &&& is_mode(mode) && path.len() > 0 && known && !is_oid(oid) ==> found == Err::<
                EntryModel,
                _,
            >(GitIssue::InvalidOid { oid })
        }),
{
    assert('\t' as u8 == 9u8);
    let record = head + seq![9u8] + tail;
    bytes_are_split(head, 9u8, tail);
    let n = head.len() as int;
    assert(record.subrange(0, n) =~= head);
    assert(record.subrange(n + 1, record.len() as int) =~= tail);
    texts_are_split(mode, ' ', kind + seq![' '] + oid);
    texts_are_split(kind, ' ', oid);
    texts_are_split(oid, ' ', Seq::empty());
    let fields = split(decode_utf8(head), ' ');
    assert(fields =~= seq![mode, kind, oid]);
}

/// A record of a tree without a tab, or with bytes that are no text, is refused.
pub proof fn records_that_are_refused(head: Seq<u8>, tail: Seq<u8>, sha: Seq<char>)
    requires
        !head.contains('\t' as u8),
    ensures
        entry_of(head, sha) == Err::<EntryModel, _>(GitIssue::TreeRecord { sha }),
        !valid_utf8(head) ==> entry_of(head + seq!['\t' as u8] + tail, sha) == Err::<
            EntryModel,
            _,
        >(GitIssue::TreeRecord { sha }),
        valid_utf8(head) && !valid_utf8(tail) ==> entry_of(head + seq!['\t' as u8] + tail, sha)
            == Err::<EntryModel, _>(
            GitIssue::PathEncoding { sha, path: crate::text::lossy(tail) },
        ),
{
    assert('\t' as u8 == 9u8);
    bytes_are_split(head, 9u8, tail);
    let all = head + seq![9u8] + tail;
    let n = head.len() as int;
    assert(all.subrange(0, n) =~= head);
    assert(all.subrange(n + 1, all.len() as int) =~= tail);
}

/// The records of a tree end in null bytes, and a commit is asked for by its id.
pub proof fn trees_are_lists(output: Seq<u8>, sha: Seq<char>)
    ensures
        !is_oid(sha) ==> listed_entries(sha, output) == Err::<Seq<EntryModel>, _>(
            GitIssue::InvalidOid { oid: sha },
        ),
        is_oid(sha) ==> listed_entries(sha, output) == tree_entries(output, sha),
        tree_entries(output, sha) == crate::git::entries_of(
            split_bytes(output, 0u8),
            sha,
            split_bytes(output, 0u8).len() as int,
        ),
{
}

/// A clone lacks objects where its configuration names a partial clone, a filter of a
/// remote, or a remote that promises objects and is not switched off.
pub proof fn partial_clones(key: Seq<char>, value: Seq<char>, name: Seq<char>)
    ensures
        key == "extensions.partialclone"@ ==> is_promisor(key, value),
        key == "remote."@ + name + ".partialclonefilter"@ ==> is_promisor(key, value),
        key == "remote."@ + name + ".promisor"@ && value.len() > 0 && value != "false"@ && value
            != "0"@ ==> is_promisor(key, value),
        is_promisor(key, value) ==> key == "extensions.partialclone"@ || "remote."@.is_prefix_of(
            key,
        ),
        is_promisor(key, value) && key != "extensions.partialclone"@
            && !".partialclonefilter"@.is_suffix_of(key) ==> ".promisor"@.is_suffix_of(key)
            && value.len() > 0 && value != "false"@ && value != "0"@,
{
    let filter = "remote."@ + name + ".partialclonefilter"@;
    let promisor = "remote."@ + name + ".promisor"@;
    assert(filter.subrange(0, "remote."@.len() as int) =~= "remote."@);
    assert(promisor.subrange(0, "remote."@.len() as int) =~= "remote."@);
    assert(filter.subrange(
        filter.len() - ".partialclonefilter"@.len(),
        filter.len() as int,
    ) =~= ".partialclonefilter"@);
    assert(promisor.subrange(promisor.len() - ".promisor"@.len(), promisor.len() as int)
        =~= ".promisor"@);
}

/// A record of the configuration is a key, a line feed and a value. A partial clone and
/// a graft file are refused; nothing else is.
pub proof fn configurations_that_are_refused(key: Seq<char>, value: Seq<char>)
    requires
        !key.contains('\n'),
    ensures
        ({
            let record = key + seq!['\n'] + value;
            &&& record_key(record) == key && record_value(record) == value
            &&& record_key(key) == key && record_value(key).len() == 0
            &&& is_promisor(key, value) ==> record_failure(record) == Some(
                GitIssue::PartialClone { key },
            )
            &&& !is_promisor(key, value) && key == "core.graftfile"@ ==> record_failure(record)
                == Some(GitIssue::GraftFile { value })
            &&& !is_promisor(key, value) && key != "core.graftfile"@ ==> record_failure(record)
                is None
        }),
{
    texts_are_split(key, '\n', value);
    let record = key + seq!['\n'] + value;
    let n = key.len() as int;
    assert(record.subrange(0, n) =~= key);
    assert(key.subrange(0, n) =~= key);
    assert(record.subrange(n + 1, record.len() as int) =~= value);
}

/// The first record of a configuration that is refused decides; its records end in null
/// bytes, and it must be UTF-8.
pub proof fn configurations_are_lists(listing: Seq<u8>, records: Seq<Seq<u8>>, k: int)
    requires
        0 <= k < records.len(),
    ensures
        !valid_utf8(listing) ==> config_failure(listing) == Some(
            GitIssue::<Seq<char>>::ConfigEncoding,
        ),
        valid_utf8(listing) ==> config_failure(listing) == records_failure(
            split_bytes(listing, 0u8),
            0,
        ),
        records_failure(records, records.len() as int) is None,
        record_failure(decoded(records[k])) is Some ==> records_failure(records, k)
            == record_failure(decoded(records[k])),
        record_failure(decoded(records[k])) is None ==> records_failure(records, k)
            == records_failure(records, k + 1),
{
}

/// A revision stands for one commit: Git answers with its id, and lists it alone.
pub proof fn revisions_stand_for_one_commit(answer: Seq<char>, listing: Seq<u8>)
    ensures
        ({
            let found = resolved_commit(answer, listing);
            let commits = listed_commits(listing);
            &&& !is_oid(answer) ==> found == Err::<CommitModel, _>(
                GitIssue::InvalidOid { oid: answer },
            )
            &&& is_oid(answer) && commits is Err ==> found == Err::<CommitModel, _>(commits->Err_0)
            &&& is_oid(answer) && commits is Ok && commits->Ok_0.len() == 1 ==> found == Ok::<
                _,
                GitFailure,
            >(commits->Ok_0[0])
            &&& is_oid(answer) && commits is Ok && commits->Ok_0.len() != 1 ==> found == Err::<
                CommitModel,
                _,
            >(
                GitIssue::RecordCount {
                    sha: answer,
                    count: commits->Ok_0.len() as usize,
                },
            )
        }),
{
}

/// A chain is refused where the clone is shallow, where it is empty, and where it does
/// not start at its head.
pub proof fn chains_that_are_refused(head: Seq<char>, shallow: Seq<char>, listing: Seq<u8>)
    ensures
        ({
            let found = listed_chain(head, shallow, listing);
            let commits = listed_commits(listing);
            let whole = is_oid(head) && shallow != "true"@;
            &&& !is_oid(head) ==> found == Err::<Seq<CommitModel>, _>(
                GitIssue::InvalidOid { oid: head },
            )
            &&& is_oid(head) && shallow == "true"@ ==> found == Err::<Seq<CommitModel>, _>(
                GitIssue::<Seq<char>>::Shallow,
            )
            &&& whole && commits is Err ==> found == Err::<Seq<CommitModel>, _>(commits->Err_0)
            &&& whole && commits is Ok && commits->Ok_0.len() == 0 ==> found == Err::<
                Seq<CommitModel>,
                _,
            >(GitIssue::EmptyChain { sha: head })
            &&& whole && commits is Ok && commits->Ok_0.len() > 0 && commits->Ok_0[0].sha == head
                ==> found == Ok::<_, GitFailure>(commits->Ok_0)
            &&& whole && commits is Ok && commits->Ok_0.len() > 0 && commits->Ok_0[0].sha != head
                ==> found == Err::<Seq<CommitModel>, _>(
                GitIssue::ChainStart { sha: head, first: commits->Ok_0[0].sha },
            )
        }),
{
}

/// Git answers for an object with its id, its type and its size, or says that it is
/// missing.
pub proof fn objects_have_headers(echoed: Seq<char>, kind: Seq<char>, size: Seq<char>, oid: Seq<char>)
    requires
        !echoed.contains(' '),
        !kind.contains(' '),
        !size.contains(' '),
    ensures
        ({
            let short = echoed + seq![' '] + kind;
            let long = echoed + seq![' '] + (kind + seq![' '] + size);
            let bytes = unsigned(size, usize::MAX as int);
            &&& batch_size(echoed, oid) == Err::<usize, _>(GitIssue::BatchHeader { header: echoed })
            &&& kind == "missing"@ ==> batch_size(short, oid) == Err::<usize, _>(
                GitIssue::MissingObject { oid },
            ) && batch_size(long, oid) == batch_size(short, oid)
            &&& kind != "missing"@ && kind != "blob"@ ==> batch_size(long, oid) == Err::<usize, _>(
                GitIssue::NotBlob { oid, kind },
            )
            &&& kind == "blob"@ && echoed != oid ==> batch_size(long, oid) == Err::<usize, _>(
                GitIssue::WrongObject { echoed, oid },
            )
            &&& kind == "blob"@ && echoed == oid ==> batch_size(short, oid) == Err::<usize, _>(
                GitIssue::BatchHeader { header: short },
            )
            &&& kind == "blob"@ && echoed == oid && bytes is Some ==> batch_size(long, oid) == Ok::<
                _,
                GitFailure,
            >(bytes->0 as usize)
            &&& kind == "blob"@ && echoed == oid && bytes is None ==> batch_size(long, oid)
                == Err::<usize, _>(GitIssue::ObjectSize { header: long })
        }),
{
    reveal_strlit("missing");
    reveal_strlit("blob");
    assert("missing"@.len() == 7);
    assert("blob"@.len() == 4);
    texts_are_split(echoed, ' ', kind);
    texts_are_split(echoed, ' ', kind + seq![' '] + size);
    texts_are_split(kind, ' ', size);
    texts_are_split(size, ' ', Seq::empty());
    let short = echoed + seq![' '] + kind;
    let long = echoed + seq![' '] + (kind + seq![' '] + size);
    assert(split(short, ' ') =~= seq![echoed, kind]);
    assert(split(long, ' ') =~= seq![echoed, kind, size]);
}

} // verus!
