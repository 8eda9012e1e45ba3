//! What a path says of a file: its name, its extension, and whether it is that
//! of a test.

use vstd::prelude::*;
use vstd::string::*;

use crate::format::texts;
use crate::globs::{
    compile, compiled, compiled_sets_hold_their_patterns, matches_any, set_globs, set_matches,
    GlobError, GlobFailure,
};

verus! {

/// The position behind the last slash among the first `n` characters.
pub open spec fn segment_start(path: Seq<char>, n: int) -> int
    decreases n,
{
    if n <= 0 {
        0
    } else if path[n - 1] == '/' {
        n
    } else {
        segment_start(path, n - 1)
    }
}

/// The last component among the first `n` characters of a path, by its first and
/// last position. Slashes and single dots at the end name the component before
/// them; a path that ends in two dots has none.
pub open spec fn last_component(path: Seq<char>, n: int) -> Option<(int, int)>
    decreases n,
{
    let start = segment_start(path, n);
    if n <= 0 {
        None
    } else if start >= n {
        last_component(path, n - 1)
    } else if n - start == 1 && path[start] == '.' {
        last_component(path, if start >= 0 && start < n { start } else { 0 })
    } else if n - start == 2 && path[start] == '.' && path[start + 1] == '.' {
        None
    } else {
        Some((start, n))
    }
}

/// The position of the last dot from `start` up to `n`.
pub open spec fn last_dot(path: Seq<char>, start: int, n: int) -> Option<int>
    decreases n,
{
    if n <= start || n <= 0 {
        None
    } else if path[n - 1] == '.' {
        Some(n - 1)
    } else {
        last_dot(path, start, n - 1)
    }
}

/// What follows the last dot of a file name, where the name does not begin with
/// that dot.
pub open spec fn extension_of(path: Seq<char>) -> Option<Seq<char>> {
    match last_component(path, path.len() as int) {
        None => None,
        Some((start, end)) => match last_dot(path, start, end) {
            Some(dot) => if dot > start {
                Some(path.subrange(dot + 1, end))
            } else {
                None
            },
            None => None,
        },
    }
}

fn find_segment_start(path: &str, n: usize) -> (start: usize)
    requires
        n <= path@.len(),
    ensures
        start == segment_start(path@, n as int),
        start <= n,
{
    let mut at: usize = n;
    while at > 0
        invariant
            at <= n <= path@.len(),
            segment_start(path@, at as int) == segment_start(path@, n as int),
        decreases at,
    {
        if path.get_char(at - 1) == '/' {
            return at;
        }
        at = at - 1;
    }
    0
}

pub open spec fn component_ints(component: Option<(usize, usize)>) -> Option<(int, int)> {
    match component {
        Some((start, end)) => Some((start as int, end as int)),
        None => None,
    }
}

fn find_last_component(path: &str) -> (component: Option<(usize, usize)>)
    ensures
        component_ints(component) == last_component(path@, path@.len() as int),
        component matches Some(found) ==> found.0 < found.1 <= path@.len(),
{
    let length: usize = path.unicode_len();
    let mut n: usize = length;
    while n > 0
        invariant
            n <= length == path@.len(),
            last_component(path@, n as int) == last_component(path@, path@.len() as int),
        decreases n,
    {
        let start: usize = find_segment_start(path, n);
        if start >= n {
            n = n - 1;
        } else if n - start == 1 && path.get_char(start) == '.' {
            n = start;
        } else if n - start == 2 && path.get_char(start) == '.' && path.get_char(start + 1)
            == '.' {
            return None;
        } else {
            return Some((start, n));
        }
    }
    None
}

/// What follows the last dot of a file name, where the name does not begin with
/// that dot.
pub fn extension(path: &str) -> (result: Option<&str>)
    ensures
        crate::format::optional_str(result) == extension_of(path@),
{
    let (start, end) = match find_last_component(path) {
        Some(component) => component,
        None => {
            return None;
        },
    };
    let mut at: usize = end;
    while at > start
        invariant
            start < end <= path@.len(),
            start <= at <= end,
            last_dot(path@, start as int, at as int) == last_dot(path@, start as int, end as int),
            last_component(path@, path@.len() as int) == Some((start as int, end as int)),
        decreases at,
    {
        if path.get_char(at - 1) == '.' {
            if at - 1 > start {
                return Some(path.substring_char(at, end));
            }
            return None;
        }
        at = at - 1;
    }
    None
}

/// A character with an upper-case ASCII letter made lower-case.
pub open spec fn lower(c: char) -> char {
    if 'A' <= c <= 'Z' {
        (c as u32 + 32) as char
    } else {
        c
    }
}

/// A text with its upper-case ASCII letters made lower-case.
pub open spec fn lowered(text: Seq<char>) -> Seq<char> {
    text.map_values(|c: char| lower(c))
}

/// Calls `str::to_ascii_lowercase`, which maps the ASCII letters `A` to `Z` to
/// `a` to `z` and leaves everything else unchanged.
#[verifier::external_body]
pub(crate) fn lower_text(text: &str) -> (result: String)
    ensures
        result@ == lowered(text@),
{
    text.to_ascii_lowercase()
}

/// The test paths of a language.
pub struct TestPaths {
    set: globset::GlobSet,
    patterns: Ghost<Seq<Seq<char>>>,
}

impl TestPaths {
    #[verifier::type_invariant]
    spec fn holds_patterns(self) -> bool {
        set_globs(self.set) == crate::globs::globs_of(self.patterns@, true)
    }

    pub closed spec fn patterns(&self) -> Seq<Seq<char>> {
        self.patterns@
    }

    /// Makes a matcher of patterns in which a wildcard stays within one path
    /// component.
    pub fn new(patterns: &Vec<String>) -> (paths: Result<Self, GlobError>)
        ensures
            paths is Ok <==> compiled(texts(patterns@), true) is Ok,
            paths matches Ok(paths) ==> paths.patterns() == texts(patterns@),
            paths matches Err(error) ==> compiled(texts(patterns@), true) == Err::<
                Seq<(Seq<char>, bool)>,
                GlobFailure,
            >(error@),
    {
        match compile(patterns, true) {
            Ok(set) => {
                proof {
                    compiled_sets_hold_their_patterns(texts(patterns@), true);
                }
                Ok(TestPaths { set, patterns: Ghost(texts(patterns@)) })
            },
            Err(error) => Err(error),
        }
    }

    /// One of the patterns matches a path.
    pub fn matches(&self, path: &str) -> (r: bool)
        ensures
            r == matches_any(self.patterns(), true, path@),
    {
        proof {
            use_type_invariant(self);
        }
        set_matches(&self.set, path)
    }
}

} // verus!
