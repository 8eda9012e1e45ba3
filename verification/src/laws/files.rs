//! Which files are source, of which language, and which of them are tests.

use vstd::prelude::*;

use crate::config::{default_config, in_scope, scope_failure, ConfigModel};
use crate::git::{is_regular_mode, EntryModel};
use crate::globs::{
    compiled, compiled_from, glob_complaint, glob_matches, globs_of, GlobFailure,
};
use crate::languages::adapters::is_test_path;
use crate::languages::paths::{
    extension_of, last_component, last_dot, lower, lowered, segment_start,
};
use crate::languages::policy::policy_of;
use crate::languages::{language_of, path_language, Language};
use crate::snapshot::{entry_class, shown_extension, EntryClass};

verus! {

/// The extensions of each language, and no others, make a file source.
pub proof fn extensions_of_languages(extension: Seq<char>)
    ensures
        language_of(extension) == Some(Language::JavaScript) <==> extension == "js"@ || extension
            == "jsx"@ || extension == "mjs"@ || extension == "cjs"@,
        language_of(extension) == Some(Language::TypeScript) <==> extension == "ts"@ || extension
            == "mts"@ || extension == "cts"@,
        language_of(extension) == Some(Language::Tsx) <==> extension == "tsx"@,
        language_of(extension) == Some(Language::Python) <==> extension == "py"@ || extension
            == "pyw"@ || extension == "pyi"@,
        language_of(extension) == Some(Language::Rust) <==> extension == "rs"@,
        language_of(extension) == Some(Language::Gleam) <==> extension == "gleam"@,
{
    reveal_strlit("js");
    reveal_strlit("jsx");
    reveal_strlit("mjs");
    reveal_strlit("cjs");
    reveal_strlit("ts");
    reveal_strlit("mts");
    reveal_strlit("cts");
    reveal_strlit("tsx");
    reveal_strlit("py");
    reveal_strlit("pyw");
    reveal_strlit("pyi");
    reveal_strlit("rs");
    reveal_strlit("gleam");
    assert("js"@.len() == 2 && "js"@[0] == 'j');
    assert("ts"@.len() == 2 && "ts"@[0] == 't');
    assert("py"@.len() == 2 && "py"@[0] == 'p');
    assert("rs"@.len() == 2 && "rs"@[0] == 'r');
    assert("jsx"@.len() == 3 && "jsx"@[0] == 'j' && "jsx"@[1] == 's' && "jsx"@[2] == 'x');
    assert("mjs"@.len() == 3 && "mjs"@[0] == 'm' && "mjs"@[1] == 'j' && "mjs"@[2] == 's');
    assert("cjs"@.len() == 3 && "cjs"@[0] == 'c' && "cjs"@[1] == 'j' && "cjs"@[2] == 's');
    assert("mts"@.len() == 3 && "mts"@[0] == 'm' && "mts"@[1] == 't' && "mts"@[2] == 's');
    assert("cts"@.len() == 3 && "cts"@[0] == 'c' && "cts"@[1] == 't' && "cts"@[2] == 's');
    assert("tsx"@.len() == 3 && "tsx"@[0] == 't' && "tsx"@[1] == 's' && "tsx"@[2] == 'x');
    assert("pyw"@.len() == 3 && "pyw"@[0] == 'p' && "pyw"@[1] == 'y' && "pyw"@[2] == 'w');
    assert("pyi"@.len() == 3 && "pyi"@[0] == 'p' && "pyi"@[1] == 'y' && "pyi"@[2] == 'i');
    assert("gleam"@.len() == 5);
}

/// The name that each language is reported under.
pub proof fn language_names(language: Language)
    ensures
        language.name() == "javascript"@ <==> language == Language::JavaScript,
        language.name() == "typescript"@ <==> language == Language::TypeScript,
        language.name() == "tsx"@ <==> language == Language::Tsx,
        language.name() == "python"@ <==> language == Language::Python,
        language.name() == "rust"@ <==> language == Language::Rust,
        language.name() == "gleam"@ <==> language == Language::Gleam,
{
    reveal_strlit("javascript");
    reveal_strlit("typescript");
    reveal_strlit("tsx");
    reveal_strlit("python");
    reveal_strlit("rust");
    reveal_strlit("gleam");
    assert("javascript"@.len() == 10 && "javascript"@[0] == 'j');
    assert("typescript"@.len() == 10 && "typescript"@[0] == 't');
    assert("tsx"@.len() == 3);
    assert("python"@.len() == 6);
    assert("rust"@.len() == 4);
    assert("gleam"@.len() == 5);
}

/// Lower case changes the letters from `A` to `Z` and nothing else.
pub proof fn lower_case_of_letters(c: char, text: Seq<char>)
    ensures
        'A' <= c <= 'Z' ==> lower(c) as int - 'a' as int == c as int - 'A' as int,
        !('A' <= c <= 'Z') ==> lower(c) == c,
        lowered(text).len() == text.len(),
        forall|k: int| 0 <= k < text.len() ==> #[trigger] lowered(text)[k] == lower(text[k]),
        lowered(lowered(text)) == lowered(text),
{
    assert(lowered(lowered(text)) =~= lowered(text));
}

proof fn lemma_segment(path: Seq<char>, start: int, n: int)
    requires
        0 <= start <= n <= path.len(),
        start > 0 ==> path[start - 1] == '/',
        forall|k: int| start <= k < n ==> path[k] != '/',
    ensures
        segment_start(path, n) == start,
    decreases n,
{
    if start < n {
        lemma_segment(path, start, n - 1);
    }
}

proof fn lemma_dot(path: Seq<char>, start: int, dot: int, n: int)
    requires
        0 <= start <= dot < n <= path.len(),
        path[dot] == '.',
        forall|k: int| dot < k < n ==> path[k] != '.',
    ensures
        last_dot(path, start, n) == Some(dot),
    decreases n,
{
    if dot < n - 1 {
        lemma_dot(path, start, dot, n - 1);
    }
}

proof fn lemma_no_dot(path: Seq<char>, start: int, n: int)
    requires
        0 <= start <= n <= path.len(),
        forall|k: int| start <= k < n ==> path[k] != '.',
    ensures
        last_dot(path, start, n) is None,
    decreases n,
{
    if start < n {
        lemma_no_dot(path, start, n - 1);
    }
}

/// A path is that of a file in a directory: the directory is empty or ends in a slash,
/// and the name holds none.
pub open spec fn in_directory(directory: Seq<char>, name: Seq<char>) -> bool {
    &&& directory.len() > 0 ==> directory.last() == '/'
    &&& !name.contains('/')
}

/// What stands behind the last dot of a file's name is its extension, whatever the
/// directory is called. The language goes by that extension in lower case.
pub proof fn extensions_end_names(directory: Seq<char>, stem: Seq<char>, extension: Seq<char>)
    requires
        in_directory(directory, stem + "."@ + extension),
        stem.len() > 0,
        extension.len() > 0,
        !extension.contains('.'),
    ensures
        extension_of(directory + stem + "."@ + extension) == Some(extension),
        path_language(directory + stem + "."@ + extension) == language_of(lowered(extension)),
        shown_extension(directory + stem + "."@ + extension) == lowered(extension),
{
    reveal_strlit(".");
    let name = stem + "."@ + extension;
    let path = directory + stem + "."@ + extension;
    let start = directory.len() as int;
    let end = path.len() as int;
    let dot = start + stem.len();
    assert forall|k: int| start <= k < end implies path[k] != '/' by {
        assert(path[k] == name[k - start]);
        assert(name.contains(name[k - start]));
    }
    lemma_segment(path, start, end);
    assert forall|k: int| dot < k < end implies path[k] != '.' by {
        assert(path[k] == extension[k - dot - 1]);
        assert(extension.contains(extension[k - dot - 1]));
    }
    lemma_dot(path, start, dot, end);
    assert(last_component(path, end) == Some((start, end)));
    assert(path.subrange(dot + 1, end) =~= extension);
}

/// A name without a dot has no extension, nor has one whose only dot is its first
/// character. Such a file is of no language.
pub proof fn names_without_extension(directory: Seq<char>, name: Seq<char>)
    requires
        in_directory(directory, name),
        name.len() > 0,
        forall|k: int| 0 < k < name.len() ==> #[trigger] name[k] != '.',
        name[0] == '.' ==> name.len() > 1,
    ensures
        extension_of(directory + name) is None,
        path_language(directory + name) is None,
        shown_extension(directory + name) == "<none>"@,
{
    let path = directory + name;
    let start = directory.len() as int;
    let end = path.len() as int;
    assert forall|k: int| start <= k < end implies path[k] != '/' by {
        assert(path[k] == name[k - start]);
        assert(name.contains(name[k - start]));
    }
    lemma_segment(path, start, end);
    assert forall|k: int| start < k < end implies path[k] != '.' by {
        assert(path[k] == name[k - start]);
    }
    if end - start == 2 {
        assert(path[start + 1] != '.');
    }
    assert(last_component(path, end) == Some((start, end)));
    if name[0] == '.' {
        assert(path[start] == '.');
        lemma_dot(path, start, start, end);
    } else {
        assert(path[start] == name[0]);
        lemma_no_dot(path, start, end);
    }
}

/// Only plain files count, executable or not: no links and no submodules.
pub proof fn regular_modes(mode: Seq<char>)
    ensures
        is_regular_mode(mode) <==> mode == "100644"@ || mode == "100755"@,
{
}

/// A tracked entry is of one class: no plain file, a file of no language, a test by its
/// path where tests are left out, or source.
pub proof fn classes_of_entries(entry: EntryModel, exclude_tests: bool, language: Language)
    ensures
        ({
            let class = entry_class(entry, exclude_tests);
            let plain = entry.mode == "100644"@ || entry.mode == "100755"@;
            let known = path_language(entry.path);
            &&& class == EntryClass::NonRegular <==> !plain
            &&& class == EntryClass::Unsupported <==> plain && known is None
            &&& class == EntryClass::Test(language) <==> plain && known == Some(language)
                && exclude_tests && is_test_path(language, entry.path)
            &&& class == EntryClass::Source(language) <==> plain && known == Some(language) && !(
            exclude_tests && is_test_path(language, entry.path))
        }),
{
}

proof fn lemma_matches(patterns: Seq<Seq<char>>, bounded: bool, path: Seq<char>)
    ensures
        crate::globs::matches_any(patterns, bounded, path) <==> exists|k: int|
            0 <= k < patterns.len() && #[trigger] glob_matches(patterns[k], bounded, path),
{
    let globs = globs_of(patterns, bounded);
    assert forall|k: int| 0 <= k < patterns.len() implies globs[k] == (
        #[trigger] patterns[k],
        bounded,
    ) by {}
    if exists|k: int|
        0 <= k < patterns.len() && #[trigger] glob_matches(patterns[k], bounded, path) {
        let k = choose|k: int|
            0 <= k < patterns.len() && #[trigger] glob_matches(patterns[k], bounded, path);
        assert(glob_matches(globs[k].0, globs[k].1, path));
    }
    if crate::globs::matches_any(patterns, bounded, path) {
        let k = choose|k: int|
            0 <= k < globs.len() && #[trigger] glob_matches(globs[k].0, globs[k].1, path);
        assert(glob_matches(patterns[k], bounded, path));
    }
}

/// A pattern of a list matches a path, with stars that stay inside a directory.
pub open spec fn fits(patterns: Seq<Seq<char>>, path: Seq<char>) -> bool {
    exists|k: int| 0 <= k < patterns.len() && #[trigger] glob_matches(patterns[k], true, path)
}

/// The test directories and the test names of each language.
pub proof fn test_paths(path: Seq<char>)
    ensures
        is_test_path(Language::JavaScript, path) <==> fits(
            seq![
                "**/test/**"@,
                "**/tests/**"@,
                "**/__tests__/**"@,
                "**/__mocks__/**"@,
                "**/*.test.*"@,
                "**/*.tests.*"@,
                "**/*.spec.*"@,
                "**/*.cy.*"@,
            ],
            path,
        ),
        is_test_path(Language::TypeScript, path) == is_test_path(Language::JavaScript, path),
        is_test_path(Language::Tsx, path) == is_test_path(Language::JavaScript, path),
        is_test_path(Language::Python, path) <==> fits(
            seq![
                "**/test/**"@,
                "**/tests/**"@,
                "**/__tests__/**"@,
                "**/test_*.{py,pyw,pyi}"@,
                "**/*_test.{py,pyw,pyi}"@,
                "**/conftest.{py,pyw,pyi}"@,
            ],
            path,
        ),
        is_test_path(Language::Rust, path) <==> fits(
            seq!["**/tests/**"@, "**/tests.rs"@],
            path,
        ),
        is_test_path(Language::Gleam, path) <==> fits(
            seq!["**/test/**"@, "**/tests/**"@, "**/*_test.gleam"@],
            path,
        ),
{
    lemma_matches(policy_of(Language::JavaScript).path_patterns, true, path);
    lemma_matches(policy_of(Language::Python).path_patterns, true, path);
    lemma_matches(policy_of(Language::Rust).path_patterns, true, path);
    lemma_matches(policy_of(Language::Gleam).path_patterns, true, path);
}

/// A list of patterns is valid where each of them is and so is their set; the first that
/// is not decides.
pub proof fn patterns_must_be_valid(
    patterns: Seq<Seq<char>>,
    bounded: bool,
    k: int,
    config: ConfigModel,
)
    requires
        0 <= k < patterns.len(),
    ensures
        ({
            let complaint = glob_complaint(patterns[k], bounded);
            &&& complaint is Some ==> compiled_from(patterns, bounded, k) == Err::<
                Seq<(Seq<char>, bool)>,
                _,
            >(GlobFailure::Pattern { pattern: patterns[k], complaint: complaint->0 })
            &&& complaint is None ==> compiled_from(patterns, bounded, k) == compiled_from(
                patterns,
                bounded,
                k + 1,
            )
        }),
        compiled(patterns, bounded) == compiled_from(patterns, bounded, 0),
        compiled(config.includes, false) is Err ==> scope_failure(config) == Some(
            compiled(config.includes, false)->Err_0,
        ),
        compiled(config.includes, false) is Ok && compiled(config.exclude, false) is Err
            ==> scope_failure(config) == Some(compiled(config.exclude, false)->Err_0),
        compiled(config.includes, false) is Ok && compiled(config.exclude, false) is Ok
            ==> scope_failure(config) is None,
{
}

/// A file is in scope where some pattern takes it in and none leaves it out. Without a
/// configuration one pattern takes in everything.
pub proof fn scope_takes_in_and_leaves_out(config: ConfigModel, path: Seq<char>)
    ensures
        in_scope(config, path) <==> (exists|k: int|
            0 <= k < config.includes.len() && #[trigger] glob_matches(
                config.includes[k],
                false,
                path,
            )) && !(exists|k: int|
            0 <= k < config.exclude.len() && #[trigger] glob_matches(
                config.exclude[k],
                false,
                path,
            )),
        default_config().includes == seq!["**"@],
        default_config().exclude.len() == 0,
{
    lemma_matches(config.includes, false, path);
    lemma_matches(config.exclude, false, path);
}

} // verus!
