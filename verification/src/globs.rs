//! Sets of path patterns.

use vstd::prelude::*;
use vstd::string::*;

use crate::format::{quoted, texts};

verus! {

/// One pattern of the globset crate.
#[verifier::external_type_specification]
#[verifier::external_body]
pub struct ExGlob(globset::Glob);

/// A builder of pattern sets of the globset crate.
#[verifier::external_type_specification]
#[verifier::external_body]
pub struct ExGlobSetBuilder(globset::GlobSetBuilder);

/// A set of patterns of the globset crate.
#[verifier::external_type_specification]
#[verifier::external_body]
pub struct ExGlobSet(globset::GlobSet);

/// What is wrong with a pattern, where anything is. In a bounded pattern, a
/// wildcard does not match the separator of path components.
pub uninterp spec fn glob_complaint(pattern: Seq<char>, bounded: bool) -> Option<Seq<char>>;

/// A path matches a pattern.
pub uninterp spec fn glob_matches(pattern: Seq<char>, bounded: bool, path: Seq<char>) -> bool;

/// What is wrong with a set of patterns, where anything is.
pub uninterp spec fn set_complaint(globs: Seq<(Seq<char>, bool)>) -> Option<Seq<char>>;

/// The pattern that a glob was made of, and whether it is bounded.
pub uninterp spec fn glob_source(glob: globset::Glob) -> (Seq<char>, bool);

/// The patterns that a builder holds.
pub uninterp spec fn builder_globs(builder: globset::GlobSetBuilder) -> Seq<(Seq<char>, bool)>;

/// The patterns that a set holds.
pub uninterp spec fn set_globs(set: globset::GlobSet) -> Seq<(Seq<char>, bool)>;

/// Calls `globset::GlobBuilder::build` on a case-sensitive pattern. Whether it
/// is accepted, and what is said of one that is not, is fixed by the pattern and
/// the option on systems where `/` is the only separator.
#[verifier::external_body]
fn build_glob(pattern: &str, bounded: bool) -> (glob: Result<globset::Glob, String>)
    ensures
        match glob {
            Ok(glob) => glob_complaint(pattern@, bounded) is None && glob_source(glob) == (
                pattern@,
                bounded,
            ),
            Err(complaint) => glob_complaint(pattern@, bounded) == Some(complaint@),
        },
{
    let mut builder = globset::GlobBuilder::new(pattern);
    builder.literal_separator(bounded).build().map_err(|error| error.to_string())
}

/// Calls `globset::GlobSetBuilder::new`, which gives an empty builder.
#[verifier::external_body]
fn new_builder() -> (builder: globset::GlobSetBuilder)
    ensures
        builder_globs(builder) == Seq::<(Seq<char>, bool)>::empty(),
{
    globset::GlobSetBuilder::new()
}

/// Calls `globset::GlobSetBuilder::add`, which adds a pattern behind the others.
#[verifier::external_body]
fn add_glob(builder: &mut globset::GlobSetBuilder, glob: globset::Glob)
    ensures
        builder_globs(*final(builder)) == builder_globs(*old(builder)).push(glob_source(glob)),
{
    builder.add(glob);
}

/// Calls `globset::GlobSetBuilder::build`, which makes a set of the patterns
/// added. Whether it does, and what is said where it does not, is fixed by them.
#[verifier::external_body]
fn build_set(builder: &globset::GlobSetBuilder) -> (set: Result<globset::GlobSet, String>)
    ensures
        match set {
            Ok(set) => set_complaint(builder_globs(*builder)) is None && set_globs(set)
                == builder_globs(*builder),
            Err(complaint) => set_complaint(builder_globs(*builder)) == Some(complaint@),
        },
{
    builder.build().map_err(|error| error.to_string())
}

/// A path matches one of the patterns.
pub open spec fn any_matches(globs: Seq<(Seq<char>, bool)>, path: Seq<char>) -> bool {
    exists|k: int|
        0 <= k < globs.len() && #[trigger] glob_matches(globs[k].0, globs[k].1, path)
}

/// Calls `globset::GlobSet::is_match`, which says whether any pattern of the set
/// matches a path.
#[verifier::external_body]
pub(crate) fn set_matches(set: &globset::GlobSet, path: &str) -> (r: bool)
    ensures
        r == (exists|k: int|
            0 <= k < set_globs(*set).len() && #[trigger] glob_matches(
                set_globs(*set)[k].0,
                set_globs(*set)[k].1,
                path@,
            )),
{
    set.is_match(path)
}

/// Why patterns make up no set.
#[derive(Debug)]
pub enum GlobError {
    /// A pattern is not valid.
    Pattern { pattern: String, complaint: String },
    /// The patterns are valid, but too much together.
    Whole { complaint: String },
}

/// Why patterns make up no set, as specifications speak of it.
pub enum GlobFailure {
    Pattern { pattern: Seq<char>, complaint: Seq<char> },
    Whole { complaint: Seq<char> },
}

impl View for GlobError {
    type V = GlobFailure;

    open spec fn view(&self) -> GlobFailure {
        match self {
            GlobError::Pattern { pattern, complaint } => GlobFailure::Pattern {
                pattern: pattern@,
                complaint: complaint@,
            },
            GlobError::Whole { complaint } => GlobFailure::Whole { complaint: complaint@ },
        }
    }
}

/// What to tell the user of patterns that make up no set.
pub open spec fn glob_message(
    failure: GlobFailure,
    invalid: Seq<char>,
    compiling: Seq<char>,
) -> Seq<char> {
    match failure {
        GlobFailure::Pattern { pattern, complaint } => invalid + crate::format::debug_text(pattern)
            + ": "@ + complaint,
        GlobFailure::Whole { complaint } => compiling + ": "@ + complaint,
    }
}

impl GlobError {
    /// What to tell the user.
    pub fn message(&self, invalid: &str, compiling: &str) -> (message: String)
        ensures
            message@ == glob_message(self@, invalid@, compiling@),
    {
        match self {
            GlobError::Pattern { pattern, complaint } => {
                let mut message = invalid.to_owned();
                let quote = quoted(pattern.as_str());
                message.append(quote.as_str());
                message.append(": ");
                message.append(complaint.as_str());
                message
            },
            GlobError::Whole { complaint } => {
                let mut message = compiling.to_owned();
                message.append(": ");
                message.append(complaint.as_str());
                message
            },
        }
    }
}

/// The patterns as a set holds them.
pub open spec fn globs_of(patterns: Seq<Seq<char>>, bounded: bool) -> Seq<(Seq<char>, bool)> {
    patterns.map_values(|p: Seq<char>| (p, bounded))
}

/// What becomes of patterns from the `k`-th one on: an error for the first one
/// that is not valid, an error for the set, or the set.
pub open spec fn compiled_from(patterns: Seq<Seq<char>>, bounded: bool, k: int) -> Result<
    Seq<(Seq<char>, bool)>,
    GlobFailure,
>
    decreases patterns.len() - k,
{
    let all = globs_of(patterns, bounded);
    if k >= patterns.len() {
        match set_complaint(all) {
            Some(complaint) => Err(GlobFailure::Whole { complaint }),
            None => Ok(all),
        }
    } else {
        match glob_complaint(patterns[k], bounded) {
            Some(complaint) => Err(GlobFailure::Pattern { pattern: patterns[k], complaint }),
            None => compiled_from(patterns, bounded, k + 1),
        }
    }
}

/// What becomes of patterns: the set of them, or why there is none.
pub open spec fn compiled(patterns: Seq<Seq<char>>, bounded: bool) -> Result<
    Seq<(Seq<char>, bool)>,
    GlobFailure,
> {
    compiled_from(patterns, bounded, 0)
}

/// Makes a set of patterns.
pub(crate) fn compile(patterns: &Vec<String>, bounded: bool) -> (set: Result<
    globset::GlobSet,
    GlobError,
>)
    ensures
        match set {
            Ok(set) => compiled(texts(patterns@), bounded) == Ok::<
                Seq<(Seq<char>, bool)>,
                GlobFailure,
            >(set_globs(set)),
            Err(error) => compiled(texts(patterns@), bounded) == Err::<
                Seq<(Seq<char>, bool)>,
                GlobFailure,
            >(error@),
        },
{
    let ghost all = texts(patterns@);
    let ghost globs = globs_of(all, bounded);
    let mut builder = new_builder();
    let mut k: usize = 0;
    while k < patterns.len()
        invariant
            all == texts(patterns@),
            globs == globs_of(all, bounded),
            k <= patterns@.len(),
            builder_globs(builder) =~= globs.subrange(0, k as int),
            compiled_from(all, bounded, k as int) == compiled(all, bounded),
        decreases patterns@.len() - k,
    {
        assert(all[k as int] == patterns@[k as int]@);
        assert(globs[k as int] == (all[k as int], bounded));
        match build_glob(patterns[k].as_str(), bounded) {
            Ok(glob) => {
                add_glob(&mut builder, glob);
            },
            Err(complaint) => {
                return Err(GlobError::Pattern { pattern: patterns[k].clone(), complaint });
            },
        }
        k = k + 1;
        assert(builder_globs(builder) =~= globs.subrange(0, k as int));
    }
    assert(globs.subrange(0, k as int) =~= globs);
    match build_set(&builder) {
        Ok(set) => Ok(set),
        Err(complaint) => Err(GlobError::Whole { complaint }),
    }
}

/// The set of patterns matches a path where one of them does.
pub open spec fn matches_any(patterns: Seq<Seq<char>>, bounded: bool, path: Seq<char>) -> bool {
    any_matches(globs_of(patterns, bounded), path)
}

proof fn lemma_compiled(patterns: Seq<Seq<char>>, bounded: bool, k: int)
    requires
        compiled_from(patterns, bounded, k) is Ok,
    ensures
        compiled_from(patterns, bounded, k)->Ok_0 == globs_of(patterns, bounded),
    decreases patterns.len() - k,
{
    if k < patterns.len() {
        lemma_compiled(patterns, bounded, k + 1);
    }
}

/// A set holds the patterns that it was made of.
pub proof fn compiled_sets_hold_their_patterns(patterns: Seq<Seq<char>>, bounded: bool)
    requires
        compiled(patterns, bounded) is Ok,
    ensures
        compiled(patterns, bounded)->Ok_0 == globs_of(patterns, bounded),
{
    lemma_compiled(patterns, bounded, 0);
}

/// No path matches an empty set.
pub proof fn empty_sets_match_nothing(bounded: bool, path: Seq<char>)
    ensures
        !matches_any(Seq::empty(), bounded, path),
{
    assert(globs_of(Seq::empty(), bounded).len() == 0);
}

} // verus!
