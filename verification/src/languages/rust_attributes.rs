//! Rust attributes: paths, meta items and the conditions that they state.

use vstd::prelude::*;
use vstd::string::*;

use super::syntax::{indices, remaining, Syntax, SyntaxTree};
use crate::text::same;

verus! {

pub open spec fn is_comment(kind: Seq<char>) -> bool {
    kind == "line_comment"@ || kind == "block_comment"@
}

pub fn comment(tree: &SyntaxTree, i: usize) -> (r: bool)
    requires
        tree.wf(),
        i < tree@.len(),
    ensures
        r == is_comment(tree@.kind(i as int)),
{
    tree.is(i, "line_comment") || tree.is(i, "block_comment")
}

/// A name without the marks of a raw identifier.
pub open spec fn unraw(name: Seq<char>) -> Seq<char>
    decreases name.len(),
{
    if name.len() >= 2 && name[0] == 'r' && name[1] == '#' {
        unraw(name.subrange(2, name.len() as int))
    } else {
        name
    }
}

/// A name without the marks of a raw identifier.
pub fn unraw_text(name: &str) -> (text: &str)
    ensures
        text@ == unraw(name@),
{
    let length: usize = name.unicode_len();
    let mut at: usize = 0;
    assert(name@.subrange(0, length as int) =~= name@);
    while length - at >= 2 && name.get_char(at) == 'r' && name.get_char(at + 1) == '#'
        invariant
            length == name@.len(),
            at <= length,
            unraw(name@.subrange(at as int, length as int)) == unraw(name@),
        decreases length - at,
    {
        let ghost rest = name@.subrange(at as int, length as int);
        assert(rest.subrange(2, rest.len() as int) =~= name@.subrange(at + 2, length as int));
        at = at + 2;
    }
    name.substring_char(at, length)
}

/// A path such as `::tokio::test`.
pub struct AttributePath {
    pub absolute: bool,
    pub parts: Vec<String>,
}

#[verifier::ext_equal]
pub struct PathModel {
    pub absolute: bool,
    pub parts: Seq<Seq<char>>,
}

pub open spec fn part_texts(parts: Seq<String>) -> Seq<Seq<char>> {
    parts.map_values(|s: String| s@)
}

impl View for AttributePath {
    type V = PathModel;

    open spec fn view(&self) -> PathModel {
        PathModel { absolute: self.absolute, parts: part_texts(self.parts@) }
    }
}

impl AttributePath {
    pub fn empty() -> (path: Self)
        ensures
            path@ == empty_path(),
    {
        let path = AttributePath { absolute: false, parts: Vec::new() };
        assert(path@.parts =~= empty_path().parts);
        path
    }

    /// Adds one part.
    pub fn add_part(&mut self, part: &str)
        ensures
            final(self)@ == (PathModel { parts: old(self)@.parts.push(part@), ..old(self)@ }),
    {
        self.parts.push(part.to_owned());
        assert(self@.parts =~= old(self)@.parts.push(part@));
    }

    /// Adds the parts of another path.
    pub fn extend(&mut self, other: &AttributePath)
        ensures
            final(self)@ == (PathModel {
                parts: old(self)@.parts + other@.parts,
                ..old(self)@
            }),
    {
        let ghost start = self@.parts;
        assert(start + other@.parts.subrange(0, 0) =~= start);
        let mut k: usize = 0;
        while k < other.parts.len()
            invariant
                k <= other.parts@.len(),
                self@.absolute == old(self)@.absolute,
                self@.parts == start + other@.parts.subrange(0, k as int),
            decreases other.parts@.len() - k,
        {
            self.add_part(other.parts[k].as_str());
            k = k + 1;
            assert(self@.parts =~= start + other@.parts.subrange(0, k as int));
        }
        assert(other@.parts.subrange(0, k as int) =~= other@.parts);
    }
}

pub open spec fn empty_path() -> PathModel {
    PathModel { absolute: false, parts: Seq::empty() }
}

pub open spec fn is_path_part(kind: Seq<char>) -> bool {
    kind == "identifier"@ || kind == "type_identifier"@ || kind == "crate"@ || kind == "self"@
        || kind == "super"@
}

pub open spec fn is_path_group(kind: Seq<char>) -> bool {
    kind == "scoped_identifier"@ || kind == "scoped_type_identifier"@
}

/// Reads a path from `at` up to `stop` behind the parts read before.
pub open spec fn path_from(t: Syntax, at: int, stop: int, path: PathModel) -> Option<PathModel>
    decreases remaining(at, stop),
{
    let kind = t.kind(at);
    if at >= stop || t.end(at) <= at {
        Some(path)
    } else if is_path_part(kind) {
        path_from(
            t,
            t.end(at),
            stop,
            PathModel { parts: path.parts.push(unraw(t.text(at))), ..path },
        )
    } else if kind == "::"@ {
        path_from(
            t,
            t.end(at),
            stop,
            PathModel { absolute: path.absolute || path.parts.len() == 0, ..path },
        )
    } else if is_path_group(kind) {
        path_from(t, at + 1, stop, path)
    } else if is_comment(kind) {
        path_from(t, t.end(at), stop, path)
    } else {
        None
    }
}

/// The path that a node spells.
pub open spec fn path_of(t: Syntax, i: int) -> Option<PathModel> {
    match path_from(t, i, t.end(i), empty_path()) {
        Some(path) => if path.parts.len() > 0 {
            Some(path)
        } else {
            None
        },
        None => None,
    }
}

pub open spec fn path_model(path: Option<AttributePath>) -> Option<PathModel> {
    match path {
        Some(path) => Some(path@),
        None => None,
    }
}

/// The path that a node spells.
pub fn read_path(tree: &SyntaxTree, i: usize) -> (path: Option<AttributePath>)
    requires
        tree.wf(),
        i < tree@.len(),
    ensures
        path_model(path) == path_of(tree@, i as int),
{
    assert(tree@.end_at(i as int));
    let stop: usize = tree.ends[i];
    let mut path = AttributePath::empty();
    let mut at: usize = i;
    while at < stop
        invariant
            tree.wf(),
            stop == tree@.end(i as int),
            stop <= tree@.len(),
            path_from(tree@, at as int, stop as int, path@) == path_from(
                tree@,
                i as int,
                stop as int,
                empty_path(),
            ),
        decreases remaining(at as int, stop as int),
    {
        assert(tree@.end_at(at as int));
        if tree.is(at, "identifier") || tree.is(at, "type_identifier") || tree.is(at, "crate")
            || tree.is(at, "self") || tree.is(at, "super") {
            path.add_part(unraw_text(tree.text(at)));
            at = tree.ends[at];
        } else if tree.is(at, "::") {
            assert(path@.parts.len() == path.parts@.len());
            path.absolute = path.absolute || path.parts.len() == 0;
            at = tree.ends[at];
        } else if tree.is(at, "scoped_identifier") || tree.is(at, "scoped_type_identifier") {
            at = at + 1;
        } else if comment(tree, at) {
            at = tree.ends[at];
        } else {
            return None;
        }
    }
    assert(path@.parts.len() == path.parts@.len());
    if path.parts.len() == 0 {
        None
    } else {
        Some(path)
    }
}

/// A condition that may be unknown.
#[derive(Clone, Copy, Debug, PartialEq, Eq, Structural)]
pub enum Truth {
    False,
    Unknown,
    True,
}

impl Truth {
    pub open spec fn not_spec(self) -> Truth {
        match self {
            Truth::False => Truth::True,
            Truth::Unknown => Truth::Unknown,
            Truth::True => Truth::False,
        }
    }

    pub fn not(self) -> (r: Truth)
        ensures
            r == self.not_spec(),
    {
        match self {
            Truth::False => Truth::True,
            Truth::Unknown => Truth::Unknown,
            Truth::True => Truth::False,
        }
    }

    /// Every condition holds: not where one fails, and unknown where one is.
    pub open spec fn all_spec(values: Seq<Truth>) -> Truth {
        if values.contains(Truth::False) {
            Truth::False
        } else if values.contains(Truth::Unknown) {
            Truth::Unknown
        } else {
            Truth::True
        }
    }

    /// One of the conditions holds.
    pub open spec fn any_spec(values: Seq<Truth>) -> Truth {
        Truth::all_spec(values.map_values(|v: Truth| v.not_spec())).not_spec()
    }

    pub fn all(values: &Vec<Truth>) -> (r: Truth)
        ensures
            r == Truth::all_spec(values@),
    {
        let mut unknown: bool = false;
        let mut k: usize = 0;
        while k < values.len()
            invariant
                k <= values@.len(),
                forall|n: int| 0 <= n < k ==> #[trigger] values@[n] != Truth::False,
                unknown ==> values@.contains(Truth::Unknown),
                !unknown ==> forall|n: int| 0 <= n < k ==> #[trigger] values@[n] != Truth::Unknown,
            decreases values@.len() - k,
        {
            if values[k] == Truth::False {
                assert(values@[k as int] == Truth::False);
                return Truth::False;
            }
            if values[k] == Truth::Unknown {
                assert(values@[k as int] == Truth::Unknown);
                unknown = true;
            }
            k = k + 1;
        }
        if unknown {
            Truth::Unknown
        } else {
            Truth::True
        }
    }

    pub fn any(values: &Vec<Truth>) -> (r: Truth)
        ensures
            r == Truth::any_spec(values@),
    {
        let mut negated: Vec<Truth> = Vec::new();
        let mut k: usize = 0;
        while k < values.len()
            invariant
                k <= values@.len(),
                negated@.len() == k,
                forall|n: int| 0 <= n < k ==> #[trigger] negated@[n] == values@[n].not_spec(),
            decreases values@.len() - k,
        {
            negated.push(values[k].not());
            k = k + 1;
        }
        assert(negated@ =~= values@.map_values(|v: Truth| v.not_spec()));
        Truth::all(&negated).not()
    }
}

/// One of the conditions holds: where one does, and otherwise unknown where one
/// is.
pub proof fn any_holds_where_one_does(values: Seq<Truth>)
    ensures
        Truth::any_spec(values) == (if values.contains(Truth::True) {
            Truth::True
        } else if values.contains(Truth::Unknown) {
            Truth::Unknown
        } else {
            Truth::False
        }),
{
    let negated = values.map_values(|v: Truth| v.not_spec());
    if values.contains(Truth::True) {
        let k = choose|k: int| 0 <= k < values.len() && values[k] == Truth::True;
        assert(negated[k] == Truth::False);
    } else if negated.contains(Truth::False) {
        let k = choose|k: int| 0 <= k < negated.len() && negated[k] == Truth::False;
        assert(values[k] == Truth::True);
    }
    if values.contains(Truth::Unknown) {
        let k = choose|k: int| 0 <= k < values.len() && values[k] == Truth::Unknown;
        assert(negated[k] == Truth::Unknown);
    } else if negated.contains(Truth::Unknown) {
        let k = choose|k: int| 0 <= k < negated.len() && negated[k] == Truth::Unknown;
        assert(values[k] == Truth::Unknown);
    }
}

/// A meta item: a path, with arguments in parentheses where it has any. It is
/// bare where nothing follows the path.
pub struct Meta {
    pub path: AttributePath,
    pub arguments: Option<usize>,
    pub bare: bool,
}

pub struct MetaModel {
    pub path: PathModel,
    pub arguments: Option<usize>,
    pub bare: bool,
}

impl View for Meta {
    type V = MetaModel;

    open spec fn view(&self) -> MetaModel {
        MetaModel { path: self.path@, arguments: self.arguments, bare: self.bare }
    }
}

pub open spec fn meta_models(list: Seq<Meta>) -> Seq<MetaModel> {
    list.map_values(|m: Meta| m@)
}

pub open spec fn meta_model(meta: Option<Meta>) -> Option<MetaModel> {
    match meta {
        Some(meta) => Some(meta@),
        None => None,
    }
}

/// Reads what follows the path of a meta item from the `k`-th token on.
pub open spec fn meta_rest(t: Syntax, tokens: Seq<int>, k: int, path: PathModel) -> Option<MetaModel>
    decreases tokens.len() - k,
{
    let left = tokens.len() - k;
    if left <= 0 {
        Some(MetaModel { path, arguments: None, bare: true })
    } else if t.kind(tokens[k]) == "::"@ {
        if left < 2 {
            None
        } else {
            match path_of(t, tokens[k + 1]) {
                Some(part) => if part.absolute {
                    None
                } else {
                    meta_rest(
                        t,
                        tokens,
                        k + 2,
                        PathModel { parts: path.parts + part.parts, ..path },
                    )
                },
                None => None,
            }
        }
    } else if left == 1 && t.kind(tokens[k]) == "token_tree"@ {
        Some(MetaModel { path, arguments: Some(tokens[k] as usize), bare: false })
    } else if left == 2 && t.kind(tokens[k]) == "="@ {
        Some(MetaModel { path, arguments: None, bare: false })
    } else {
        None
    }
}

/// The meta item that the tokens spell.
pub open spec fn meta_of(t: Syntax, tokens: Seq<int>) -> Option<MetaModel> {
    if tokens.len() == 0 {
        None
    } else if t.kind(tokens[0]) == "::"@ {
        if tokens.len() < 2 {
            None
        } else {
            match path_of(t, tokens[1]) {
                Some(path) => meta_rest(t, tokens, 2, PathModel { absolute: true, ..path }),
                None => None,
            }
        }
    } else {
        match path_of(t, tokens[0]) {
            Some(path) => meta_rest(t, tokens, 1, path),
            None => None,
        }
    }
}

pub open spec fn tokens_ok(t: Syntax, tokens: Seq<usize>) -> bool {
    forall|k: int| 0 <= k < tokens.len() ==> #[trigger] tokens[k] < t.len()
}

pub open spec fn arguments_ok(meta: Meta, t: Syntax) -> bool {
    meta.arguments is Some ==> meta.arguments->0 < t.len()
}

/// The meta item that the tokens from `start` up to `stop` spell.
fn read_meta(tree: &SyntaxTree, tokens: &Vec<usize>, start: usize, stop: usize) -> (meta: Option<
    Meta,
>)
    requires
        tree.wf(),
        tokens_ok(tree@, tokens@),
        start <= stop <= tokens@.len(),
    ensures
        meta_model(meta) == meta_of(
            tree@,
            indices(tokens@).subrange(start as int, stop as int),
        ),
        meta is Some ==> arguments_ok(meta->0, tree@),
{
    let ghost all = indices(tokens@).subrange(start as int, stop as int);
    if start >= stop {
        return None;
    }
    let mut k: usize = start;
    assert(all[0] == tokens@[start as int]);
    let rooted: bool = tree.is(tokens[k], "::");
    if rooted {
        k = k + 1;
        if k >= stop {
            return None;
        }
        assert(all[1] == tokens@[k as int]);
    }
    let mut path = match read_path(tree, tokens[k]) {
        Some(path) => path,
        None => {
            return None;
        },
    };
    if rooted {
        path.absolute = true;
    }
    k = k + 1;
    while k < stop && tree.is(tokens[k], "::")
        invariant
            tree.wf(),
            tokens_ok(tree@, tokens@),
            start < k <= stop <= tokens@.len(),
            all == indices(tokens@).subrange(start as int, stop as int),
            meta_rest(tree@, all, k - start, path@) == meta_of(tree@, all),
        decreases stop - k,
    {
        assert(all[k - start] == tokens@[k as int]);
        if stop - k < 2 {
            return None;
        }
        assert(all[k - start + 1] == tokens@[k + 1]);
        let part = match read_path(tree, tokens[k + 1]) {
            Some(part) => part,
            None => {
                return None;
            },
        };
        if part.absolute {
            return None;
        }
        path.extend(&part);
        k = k + 2;
    }
    if k >= stop {
        return Some(Meta { path, arguments: None, bare: true });
    }
    assert(all[k - start] == tokens@[k as int]);
    if stop - k == 1 && tree.is(tokens[k], "token_tree") {
        Some(Meta { path, arguments: Some(tokens[k]), bare: false })
    } else if stop - k == 2 && tree.is(tokens[k], "=") {
        Some(Meta { path, arguments: None, bare: false })
    } else {
        None
    }
}

/// The siblings from `c` up to `stop` that are no comments.
pub open spec fn code_from(t: Syntax, c: int, stop: int) -> Seq<int>
    decreases remaining(c, stop),
{
    if c >= stop || t.end(c) <= c {
        Seq::empty()
    } else if is_comment(t.kind(c)) {
        code_from(t, t.end(c), stop)
    } else {
        seq![c] + code_from(t, t.end(c), stop)
    }
}

/// The children of a node that are no comments.
pub open spec fn code_children(t: Syntax, i: int) -> Seq<int> {
    code_from(t, i + 1, t.end(i))
}

fn read_tokens(tree: &SyntaxTree, i: usize) -> (tokens: Vec<usize>)
    requires
        tree.wf(),
        i < tree@.len(),
    ensures
        indices(tokens@) == code_children(tree@, i as int),
        tokens_ok(tree@, tokens@),
{
    assert(tree@.end_at(i as int));
    let stop: usize = tree.ends[i];
    let mut tokens: Vec<usize> = Vec::new();
    let mut c: usize = i + 1;
    let ghost goal = code_children(tree@, i as int);
    assert(indices(tokens@) + goal =~= goal);
    while c < stop
        invariant
            tree.wf(),
            stop <= tree@.len(),
            tokens_ok(tree@, tokens@),
            indices(tokens@) + code_from(tree@, c as int, stop as int) == goal,
        decreases remaining(c as int, stop as int),
    {
        assert(tree@.end_at(c as int));
        let ghost rest = code_from(tree@, tree@.end(c as int), stop as int);
        if !comment(tree, c) {
            let ghost before = tokens@;
            tokens.push(c);
            assert(indices(tokens@) =~= indices(before).push(c as int));
            assert(indices(before) + (seq![c as int] + rest) =~= indices(tokens@) + rest);
        }
        c = tree.ends[c];
    }
    assert(indices(tokens@) + Seq::<int>::empty() =~= indices(tokens@));
    tokens
}

/// The meta item of an attribute.
pub open spec fn attribute_meta_of(t: Syntax, i: int) -> Option<MetaModel> {
    let attributes = t.named_of_kind(i, "attribute"@);
    if attributes.len() > 0 {
        meta_of(t, code_children(t, attributes[0]))
    } else {
        None
    }
}

/// The meta item of an attribute.
pub fn attribute_meta(tree: &SyntaxTree, i: usize) -> (meta: Option<Meta>)
    requires
        tree.wf(),
        i < tree@.len(),
    ensures
        meta_model(meta) == attribute_meta_of(tree@, i as int),
        meta is Some ==> arguments_ok(meta->0, tree@),
{
    let attributes = tree.named_of_kind(i, "attribute");
    assert(indices(attributes@).len() == attributes@.len());
    if attributes.len() == 0 {
        return None;
    }
    assert(indices(attributes@)[0] == attributes@[0]);
    let tokens = read_tokens(tree, attributes[0]);
    assert(indices(tokens@).subrange(0, tokens@.len() as int) =~= indices(tokens@));
    read_meta(tree, &tokens, 0, tokens.len())
}

/// The meta items in the tokens from `start` on, of which those before `k` hold
/// no comma.
pub open spec fn split_arguments(
    t: Syntax,
    tokens: Seq<int>,
    start: int,
    k: int,
    before: Seq<MetaModel>,
) -> Option<Seq<MetaModel>>
    decreases tokens.len() - k,
{
    if k >= tokens.len() {
        if start < tokens.len() {
            match meta_of(t, tokens.subrange(start, tokens.len() as int)) {
                Some(meta) => Some(before.push(meta)),
                None => None,
            }
        } else {
            Some(before)
        }
    } else if t.kind(tokens[k]) == ","@ {
        match meta_of(t, tokens.subrange(start, k)) {
            Some(meta) => split_arguments(t, tokens, k + 1, k + 1, before.push(meta)),
            None => None,
        }
    } else {
        split_arguments(t, tokens, start, k + 1, before)
    }
}

/// The arguments in a pair of parentheses.
pub open spec fn arguments_of(t: Syntax, i: int) -> Option<Seq<MetaModel>> {
    let tokens = code_children(t, i);
    if tokens.len() < 2 || t.kind(tokens[0]) != "("@ || t.kind(tokens.last()) != ")"@ {
        None
    } else {
        split_arguments(t, tokens.subrange(1, tokens.len() - 1), 0, 0, Seq::empty())
    }
}

pub open spec fn metas_model(list: Option<Vec<Meta>>) -> Option<Seq<MetaModel>> {
    match list {
        Some(list) => Some(meta_models(list@)),
        None => None,
    }
}

pub open spec fn metas_ok(list: Seq<Meta>, t: Syntax) -> bool {
    forall|k: int| 0 <= k < list.len() ==> arguments_ok(#[trigger] list[k], t)
}

/// The arguments in a pair of parentheses.
pub fn arguments(tree: &SyntaxTree, i: usize) -> (list: Option<Vec<Meta>>)
    requires
        tree.wf(),
        i < tree@.len(),
    ensures
        metas_model(list) == arguments_of(tree@, i as int),
        list is Some ==> metas_ok(list->0@, tree@),
{
    let tokens = read_tokens(tree, i);
    let ghost all = code_children(tree@, i as int);
    let count: usize = tokens.len();
    assert(all.len() == count);
    if count < 2 {
        return None;
    }
    assert(all[0] == tokens@[0]);
    assert(all[count - 1] == tokens@[count - 1]);
    if !tree.is(tokens[0], "(") || !tree.is(tokens[count - 1], ")") {
        return None;
    }
    let ghost inner = all.subrange(1, count - 1);
    let ghost goal = arguments_of(tree@, i as int);
    let mut list: Vec<Meta> = Vec::new();
    assert(meta_models(list@) =~= Seq::<MetaModel>::empty());
    let stop: usize = count - 1;
    let mut start: usize = 1;
    let mut k: usize = 1;
    while k < stop
        invariant
            tree.wf(),
            tokens_ok(tree@, tokens@),
            indices(tokens@) == all,
            all.len() == count,
            tokens@.len() == count,
            stop == count - 1,
            inner == all.subrange(1, count - 1),
            1 <= start <= k <= stop,
            metas_ok(list@, tree@),
            goal == arguments_of(tree@, i as int),
            split_arguments(tree@, inner, start - 1, k - 1, meta_models(list@)) == goal,
        decreases stop - k,
    {
        assert(inner[k - 1] == tokens@[k as int]);
        if tree.is(tokens[k], ",") {
            assert(inner.subrange(start - 1, k - 1) =~= indices(tokens@).subrange(
                start as int,
                k as int,
            ));
            let meta = match read_meta(tree, &tokens, start, k) {
                Some(meta) => meta,
                None => {
                    return None;
                },
            };
            let ghost before = meta_models(list@);
            list.push(meta);
            assert(meta_models(list@) =~= before.push(meta@));
            start = k + 1;
        }
        k = k + 1;
    }
    if start < stop {
        assert(inner.subrange(start - 1, inner.len() as int) =~= indices(tokens@).subrange(
            start as int,
            stop as int,
        ));
        let meta = match read_meta(tree, &tokens, start, stop) {
            Some(meta) => meta,
            None => {
                return None;
            },
        };
        let ghost before = meta_models(list@);
        list.push(meta);
        assert(meta_models(list@) =~= before.push(meta@));
    }
    Some(list)
}

/// Conditions and attributes nested deeper than this are unknown.
pub const MAX_DEPTH: usize = 64;

/// The path is the given name alone.
pub open spec fn is_named(path: PathModel, name: Seq<char>) -> bool {
    !path.absolute && path.parts.len() == 1 && path.parts[0] == name
}

/// The path is the given name alone.
pub fn named(path: &AttributePath, name: &str) -> (r: bool)
    ensures
        r == is_named(path@, name@),
{
    assert(path@.parts.len() == path.parts@.len());
    if path.absolute || path.parts.len() != 1 {
        return false;
    }
    assert(path@.parts[0] == path.parts@[0]@);
    same(path.parts[0].as_str(), name)
}

/// Whether a `cfg` condition holds with or without test mode. Nothing is known
/// of any condition but `test`.
pub open spec fn cfg_value_of(t: Syntax, meta: MetaModel, test: bool, depth: int) -> Truth
    decreases MAX_DEPTH - depth, 0int,
{
    let single = !meta.path.absolute && meta.path.parts.len() == 1;
    let values = match meta.arguments {
        Some(node) => arguments_of(t, node as int),
        None => None,
    };
    if depth >= MAX_DEPTH || !single {
        Truth::Unknown
    } else if meta.bare && is_named(meta.path, "test"@) {
        if test {
            Truth::True
        } else {
            Truth::False
        }
    } else {
        match values {
            None => Truth::Unknown,
            Some(list) => {
                let results = cfg_values(t, list, list.len() as int, test, depth + 1);
                if is_named(meta.path, "all"@) {
                    Truth::all_spec(results)
                } else if is_named(meta.path, "any"@) {
                    Truth::any_spec(results)
                } else if is_named(meta.path, "not"@) && list.len() == 1 {
                    results[0].not_spec()
                } else {
                    Truth::Unknown
                }
            },
        }
    }
}

/// Whether the first `n` conditions hold.
pub open spec fn cfg_values(t: Syntax, list: Seq<MetaModel>, n: int, test: bool, depth: int) -> Seq<
    Truth,
>
    decreases MAX_DEPTH - depth, n,
{
    if n <= 0 {
        Seq::empty()
    } else {
        cfg_values(t, list, n - 1, test, depth).push(cfg_value_of(t, list[n - 1], test, depth))
    }
}

/// Whether a `cfg` condition holds with or without test mode.
pub fn cfg_value(tree: &SyntaxTree, meta: &Meta, test: bool, depth: usize) -> (value: Truth)
    requires
        tree.wf(),
        arguments_ok(*meta, tree@),
        depth <= MAX_DEPTH,
    ensures
        value == cfg_value_of(tree@, meta@, test, depth as int),
    decreases MAX_DEPTH - depth,
{
    assert(meta.path@.parts.len() == meta.path.parts@.len());
    if depth >= MAX_DEPTH || meta.path.absolute || meta.path.parts.len() != 1 {
        return Truth::Unknown;
    }
    if meta.bare && named(&meta.path, "test") {
        return if test {
            Truth::True
        } else {
            Truth::False
        };
    }
    let node: usize = match meta.arguments {
        Some(node) => node,
        None => {
            return Truth::Unknown;
        },
    };
    let list = match arguments(tree, node) {
        Some(list) => list,
        None => {
            return Truth::Unknown;
        },
    };
    let ghost models = meta_models(list@);
    let mut results: Vec<Truth> = Vec::new();
    let mut k: usize = 0;
    while k < list.len()
        invariant
            tree.wf(),
            depth < MAX_DEPTH,
            metas_ok(list@, tree@),
            models == meta_models(list@),
            k <= list@.len(),
            results@.len() == k,
            results@ == cfg_values(tree@, models, k as int, test, depth + 1),
        decreases list@.len() - k,
    {
        assert(models[k as int] == list@[k as int]@);
        let value: Truth = cfg_value(tree, &list[k], test, depth + 1);
        results.push(value);
        k = k + 1;
    }
    if named(&meta.path, "all") {
        Truth::all(&results)
    } else if named(&meta.path, "any") {
        Truth::any(&results)
    } else if named(&meta.path, "not") && list.len() == 1 {
        results[0].not()
    } else {
        Truth::Unknown
    }
}

/// Whether a `cfg` condition holds where the conditions that nothing is known of
/// hold as given.
pub open spec fn cfg_holds(
    t: Syntax,
    meta: MetaModel,
    test: bool,
    given: spec_fn(MetaModel) -> bool,
    depth: int,
) -> bool
    decreases MAX_DEPTH - depth, 0int,
{
    let single = !meta.path.absolute && meta.path.parts.len() == 1;
    let values = match meta.arguments {
        Some(node) => arguments_of(t, node as int),
        None => None,
    };
    if depth >= MAX_DEPTH || !single {
        given(meta)
    } else if meta.bare && is_named(meta.path, "test"@) {
        test
    } else {
        match values {
            None => given(meta),
            Some(list) => if is_named(meta.path, "all"@) {
                all_hold(t, list, test, given, depth + 1)
            } else if is_named(meta.path, "any"@) {
                one_holds(t, list, test, given, depth + 1)
            } else if is_named(meta.path, "not"@) && list.len() == 1 {
                !cfg_holds(t, list[0], test, given, depth + 1)
            } else {
                given(meta)
            },
        }
    }
}

/// Every one of the conditions holds.
pub open spec fn all_hold(
    t: Syntax,
    list: Seq<MetaModel>,
    test: bool,
    given: spec_fn(MetaModel) -> bool,
    depth: int,
) -> bool
    decreases MAX_DEPTH - depth, 1int,
{
    forall|k: int|
        0 <= k < list.len() ==> cfg_holds(t, #[trigger] list[k], test, given, depth)
}

/// One of the conditions holds.
pub open spec fn one_holds(
    t: Syntax,
    list: Seq<MetaModel>,
    test: bool,
    given: spec_fn(MetaModel) -> bool,
    depth: int,
) -> bool
    decreases MAX_DEPTH - depth, 1int,
{
    exists|k: int| 0 <= k < list.len() && cfg_holds(t, #[trigger] list[k], test, given, depth)
}

/// What is said of a condition is what holds, or it is that nothing is known.
pub open spec fn agrees(value: Truth, holds: bool) -> bool {
    match value {
        Truth::True => holds,
        Truth::False => !holds,
        Truth::Unknown => true,
    }
}

proof fn lemma_cfg_values(t: Syntax, list: Seq<MetaModel>, n: int, test: bool, depth: int)
    requires
        0 <= n <= list.len(),
    ensures
        cfg_values(t, list, n, test, depth).len() == n,
        forall|k: int|
            0 <= k < n ==> #[trigger] cfg_values(t, list, n, test, depth)[k] == cfg_value_of(
                t,
                list[k],
                test,
                depth,
            ),
    decreases n,
{
    if n > 0 {
        lemma_cfg_values(t, list, n - 1, test, depth);
    }
}

/// A condition that is said to hold does, and one that is said not to hold does
/// not, whatever holds of the conditions that nothing is known of.
pub proof fn known_conditions_are_certain(
    t: Syntax,
    meta: MetaModel,
    test: bool,
    given: spec_fn(MetaModel) -> bool,
    depth: int,
)
    ensures
        agrees(cfg_value_of(t, meta, test, depth), cfg_holds(t, meta, test, given, depth)),
    decreases MAX_DEPTH - depth,
{
    let values = match meta.arguments {
        Some(node) => arguments_of(t, node as int),
        None => None,
    };
    if depth < MAX_DEPTH && values is Some {
        let list = values->0;
        let results = cfg_values(t, list, list.len() as int, test, depth + 1);
        lemma_cfg_values(t, list, list.len() as int, test, depth + 1);
        assert forall|k: int| 0 <= k < list.len() implies agrees(
            #[trigger] results[k],
            cfg_holds(t, list[k], test, given, depth + 1),
        ) by {
            known_conditions_are_certain(t, list[k], test, given, depth + 1);
        }
        any_holds_where_one_does(results);
        let d = depth + 1;
        if results.contains(Truth::False) {
            let k = choose|k: int| 0 <= k < results.len() && results[k] == Truth::False;
            assert(!cfg_holds(t, list[k], test, given, d));
            assert(!all_hold(t, list, test, given, d));
        } else if !results.contains(Truth::Unknown) {
            assert forall|k: int| 0 <= k < list.len() implies cfg_holds(
                t,
                #[trigger] list[k],
                test,
                given,
                d,
            ) by {
                assert(results.contains(results[k]));
            }
            assert(all_hold(t, list, test, given, d));
        }
        if results.contains(Truth::True) {
            let k = choose|k: int| 0 <= k < results.len() && results[k] == Truth::True;
            assert(cfg_holds(t, list[k], test, given, d));
            assert(one_holds(t, list, test, given, d));
        } else if !results.contains(Truth::Unknown) {
            assert forall|k: int| 0 <= k < list.len() implies !cfg_holds(
                t,
                #[trigger] list[k],
                test,
                given,
                d,
            ) by {
                assert(results.contains(results[k]));
            }
            assert(!one_holds(t, list, test, given, d));
        }
        if list.len() == 1 {
            assert(agrees(results[0], cfg_holds(t, list[0], test, given, d)));
        }
    }
}

} // verus!
