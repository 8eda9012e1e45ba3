//! Syntax trees as the analyzer reads them: the nodes in source order, each
//! with its parent and the end of its subtree.

use tree_sitter::Language as Grammar;
use vstd::prelude::*;
use vstd::slice::*;

use super::lines::{lines, physical_lines};
use crate::text::{decode, decoded, same};

verus! {

/// A parsed tree of the tree-sitter runtime.
#[verifier::external_type_specification]
#[verifier::external_body]
pub struct ExTree(tree_sitter::Tree);

/// A grammar of the tree-sitter runtime.
#[verifier::external_type_specification]
#[verifier::external_body]
pub struct ExGrammar(Grammar);

/// One node of a parsed tree. `field` is empty where the node fills no field
/// of its parent. Rows and columns count from zero.
pub struct SyntaxNode {
    pub kind: &'static str,
    pub field: &'static str,
    pub named: bool,
    pub error: bool,
    pub missing: bool,
    pub has_error: bool,
    pub depth: usize,
    pub start_byte: usize,
    pub end_byte: usize,
    pub start_row: usize,
    pub start_column: usize,
    pub end_row: usize,
    pub end_column: usize,
}

/// Which grammar a loaded grammar is, by the language's identifier.
pub uninterp spec fn grammar_label(grammar: Grammar) -> Seq<char>;

/// The number that a grammar gives to a node kind, zero where it has none.
pub uninterp spec fn node_kind_id(label: Seq<char>, kind: Seq<char>, named: bool) -> u16;

/// The number that a grammar gives to a field name.
pub uninterp spec fn field_id(label: Seq<char>, name: Seq<char>) -> Option<u16>;

/// The nodes of a tree in source order, parents before children.
pub uninterp spec fn tree_nodes(tree: tree_sitter::Tree) -> Seq<SyntaxNode>;

/// The nodes that parsing a source with a grammar yields; `None` where the
/// parser gives no tree.
pub uninterp spec fn parsed_nodes(label: Seq<char>, source: Seq<u8>) -> Option<Seq<SyntaxNode>>;

/// Loads `tree_sitter_javascript::LANGUAGE`.
#[verifier::external_body]
pub(crate) fn javascript_grammar() -> (grammar: Grammar)
    ensures
        grammar_label(grammar) == "javascript"@,
{
    tree_sitter_javascript::LANGUAGE.into()
}

/// Loads `tree_sitter_typescript::LANGUAGE_TYPESCRIPT`.
#[verifier::external_body]
pub(crate) fn typescript_grammar() -> (grammar: Grammar)
    ensures
        grammar_label(grammar) == "typescript"@,
{
    tree_sitter_typescript::LANGUAGE_TYPESCRIPT.into()
}

/// Loads `tree_sitter_typescript::LANGUAGE_TSX`.
#[verifier::external_body]
pub(crate) fn tsx_grammar() -> (grammar: Grammar)
    ensures
        grammar_label(grammar) == "tsx"@,
{
    tree_sitter_typescript::LANGUAGE_TSX.into()
}

/// Loads `tree_sitter_python::LANGUAGE`.
#[verifier::external_body]
pub(crate) fn python_grammar() -> (grammar: Grammar)
    ensures
        grammar_label(grammar) == "python"@,
{
    tree_sitter_python::LANGUAGE.into()
}

/// Loads `tree_sitter_rust::LANGUAGE`.
#[verifier::external_body]
pub(crate) fn rust_grammar() -> (grammar: Grammar)
    ensures
        grammar_label(grammar) == "rust"@,
{
    tree_sitter_rust::LANGUAGE.into()
}

/// Loads `tree_sitter_gleam::LANGUAGE`.
#[verifier::external_body]
pub(crate) fn gleam_grammar() -> (grammar: Grammar)
    ensures
        grammar_label(grammar) == "gleam"@,
{
    tree_sitter_gleam::LANGUAGE.into()
}

/// Calls `tree_sitter::Language::id_for_node_kind`: a lookup in the grammar's
/// own tables, so the result is fixed by the grammar, the kind and `named`.
#[verifier::external_body]
pub(crate) fn kind_id(grammar: &Grammar, kind: &str, named: bool) -> (id: u16)
    ensures
        id == node_kind_id(grammar_label(*grammar), kind@, named),
{
    grammar.id_for_node_kind(kind, named)
}

/// Calls `tree_sitter::Language::field_id_for_name`: a lookup in the grammar's
/// own tables, so the result is fixed by the grammar and the name.
#[verifier::external_body]
pub(crate) fn field_id_of(grammar: &Grammar, name: &str) -> (id: Option<u16>)
    ensures
        id == field_id(grammar_label(*grammar), name@),
{
    grammar.field_id_for_name(name).map(|id| id.get())
}

/// Calls `tree_sitter::Parser::parse` on a fresh parser that was given the
/// grammar. The parser runs without a time limit or an earlier tree, so what it
/// builds is fixed by the grammar and the source.
#[verifier::external_body]
fn parse_source(grammar: &Grammar, source: &[u8]) -> (tree: Option<tree_sitter::Tree>)
    ensures
        tree is Some <==> parsed_nodes(grammar_label(*grammar), source@) is Some,
        tree is Some ==> parsed_nodes(grammar_label(*grammar), source@) == Some(
            tree_nodes(tree->0),
        ),
{
    let mut parser = tree_sitter::Parser::new();
    parser.set_language(grammar).ok()?;
    parser.parse(source, None)
}

/// Calls `tree_sitter::Node::descendant_count` on the root, which counts every
/// node of the tree, the root among them.
#[verifier::external_body]
fn node_count(tree: &tree_sitter::Tree) -> (count: usize)
    ensures
        count == tree_nodes(*tree).len(),
{
    tree.root_node().descendant_count()
}

/// Moves a cursor with `tree_sitter::TreeCursor::goto_descendant` to the node at
/// an index, which counts the nodes parents first in source order, and reads it.
#[verifier::external_body]
fn node_at(tree: &tree_sitter::Tree, index: usize) -> (node: SyntaxNode)
    requires
        index < tree_nodes(*tree).len(),
    ensures
        node == tree_nodes(*tree)[index as int],
{
    let mut cursor = tree.walk();
    cursor.goto_descendant(index);
    let (at, depth, field) = (cursor.node(), cursor.depth(), cursor.field_name());
    let (start, end) = (at.start_position(), at.end_position());
    SyntaxNode {
        kind: at.kind(), field: field.unwrap_or(""), depth: depth as usize,
        named: at.is_named(), error: at.is_error(), missing: at.is_missing(),
        has_error: at.has_error(), start_byte: at.start_byte(), end_byte: at.end_byte(),
        start_row: start.row, start_column: start.column,
        end_row: end.row, end_column: end.column,
    }
}

/// A syntax tree with its source, as specifications speak of it.
pub struct Syntax {
    pub nodes: Seq<SyntaxNode>,
    pub parents: Seq<usize>,
    pub ends: Seq<usize>,
    pub source: Seq<u8>,
}

/// The bound on positions and node counts that the runtime's own counters keep.
pub const POSITION_LIMIT: usize = 0xffff_ffff;

/// The depths are those of a tree listed parents first.
pub open spec fn well_nested(nodes: Seq<SyntaxNode>) -> bool {
    &&& nodes.len() > 0
    &&& nodes[0].depth == 0
    &&& forall|i: int| 0 < i < nodes.len() ==> #[trigger] nested_at(nodes, i)
}

pub open spec fn nested_at(nodes: Seq<SyntaxNode>, i: int) -> bool {
    1 <= nodes[i].depth <= nodes[i - 1].depth + 1
}

/// A node lies inside a source of the given length.
pub open spec fn node_fits(node: SyntaxNode, length: int) -> bool {
    &&& node.start_byte <= node.end_byte <= length
    &&& node.start_row < POSITION_LIMIT
    &&& node.start_column < POSITION_LIMIT
    &&& node.end_row < POSITION_LIMIT
}

/// The last line of a node, counted from one. A node that ends where a line
/// begins ends on the line before.
pub open spec fn final_line(node: SyntaxNode) -> int {
    if node.end_column == 0 && node.end_row > 0 {
        node.end_row as int
    } else {
        node.end_row + 1
    }
}

/// A node lies on the lines of a file with the given number of them. The nodes of
/// an empty file lie on the line that would be its first.
pub open spec fn node_on_lines(node: SyntaxNode, lines: int) -> bool {
    &&& node.start_row <= node.end_row
    &&& final_line(node) <= if lines == 0 {
        1
    } else {
        lines
    }
}

/// A node lies inside a source with the given length and number of lines.
pub open spec fn node_placed(node: SyntaxNode, length: int, lines: int) -> bool {
    node_fits(node, length) && node_on_lines(node, lines)
}

/// The nodes form a tree over the source.
pub open spec fn well_shaped(nodes: Seq<SyntaxNode>, source: Seq<u8>) -> bool {
    &&& well_nested(nodes)
    &&& nodes.len() <= POSITION_LIMIT
    &&& forall|i: int|
        0 <= i < nodes.len() ==> node_placed(
            #[trigger] nodes[i],
            source.len() as int,
            lines(source).len() as int,
        )
}

/// How far a scan still has to go.
pub open spec fn remaining(at: int, stop: int) -> int {
    if at < stop {
        stop - at
    } else {
        0
    }
}

impl Syntax {
    pub open spec fn len(self) -> int {
        self.nodes.len() as int
    }

    pub open spec fn wf(self) -> bool {
        &&& well_shaped(self.nodes, self.source)
        &&& self.parents.len() == self.nodes.len()
        &&& self.parents[0] == 0
        &&& self.ends.len() == self.nodes.len()
        &&& forall|i: int| 0 <= i < self.len() ==> #[trigger] self.end_at(i)
        &&& forall|i: int| 0 < i < self.len() ==> #[trigger] self.parent_at(i)
    }

    /// The subtree of a node ends at the first later node that is no deeper.
    pub open spec fn end_at(self, i: int) -> bool {
        let end = self.ends[i] as int;
        &&& i < end <= self.len()
        &&& forall|k: int| i < k < end ==> #[trigger] self.nodes[k].depth > self.nodes[i].depth
        &&& end < self.len() ==> self.nodes[end].depth <= self.nodes[i].depth
    }

    /// The parent of a node is the last earlier node that is less deep.
    pub open spec fn parent_at(self, i: int) -> bool {
        let parent = self.parents[i] as int;
        &&& 0 <= parent < i
        &&& self.nodes[parent].depth + 1 == self.nodes[i].depth
        &&& forall|k: int| parent < k < i ==> #[trigger] self.nodes[k].depth >= self.nodes[i].depth
    }

    pub open spec fn kind(self, i: int) -> Seq<char> {
        self.nodes[i].kind@
    }

    pub open spec fn named(self, i: int) -> bool {
        self.nodes[i].named
    }

    pub open spec fn parent(self, i: int) -> int {
        self.parents[i] as int
    }

    pub open spec fn end(self, i: int) -> int {
        self.ends[i] as int
    }

    /// The characters that a node spans.
    pub open spec fn text(self, i: int) -> Seq<char> {
        decoded(self.source.subrange(self.nodes[i].start_byte as int, self.nodes[i].end_byte as int))
    }

    /// The first of the siblings from `c` up to `stop` that fills a field.
    pub open spec fn find_field(self, c: int, stop: int, field: Seq<char>) -> Option<int>
        decreases remaining(c, stop),
    {
        if c >= stop || self.end(c) <= c {
            None
        } else if self.nodes[c].field@ == field {
            Some(c)
        } else {
            self.find_field(self.end(c), stop, field)
        }
    }

    /// The child that fills a field.
    pub open spec fn field(self, i: int, field: Seq<char>) -> Option<int> {
        self.find_field(i + 1, self.end(i), field)
    }

    /// The siblings from `c` up to `stop` that are named.
    pub open spec fn named_from(self, c: int, stop: int) -> Seq<int>
        decreases remaining(c, stop),
    {
        if c >= stop || self.end(c) <= c {
            Seq::empty()
        } else if self.named(c) {
            seq![c] + self.named_from(self.end(c), stop)
        } else {
            self.named_from(self.end(c), stop)
        }
    }

    /// The named children of a node, in source order.
    pub open spec fn named_children(self, i: int) -> Seq<int> {
        self.named_from(i + 1, self.end(i))
    }

    /// The siblings from `c` up to `stop` that are named and of one kind.
    pub open spec fn named_kind_from(self, c: int, stop: int, kind: Seq<char>) -> Seq<int>
        decreases remaining(c, stop),
    {
        if c >= stop || self.end(c) <= c {
            Seq::empty()
        } else if self.named(c) && self.kind(c) == kind {
            seq![c] + self.named_kind_from(self.end(c), stop, kind)
        } else {
            self.named_kind_from(self.end(c), stop, kind)
        }
    }

    /// The named children of a node that are of one kind, in source order.
    pub open spec fn named_of_kind(self, i: int, kind: Seq<char>) -> Seq<int> {
        self.named_kind_from(i + 1, self.end(i), kind)
    }

    /// A child of the node is of the given kind.
    pub open spec fn has_child(self, i: int, kind: Seq<char>) -> bool {
        exists|k: int|
            0 <= k < self.children(i).len() && self.kind(#[trigger] self.children(i)[k]) == kind
    }

    /// The siblings from `c` up to `stop`.
    pub open spec fn siblings_from(self, c: int, stop: int) -> Seq<int>
        decreases remaining(c, stop),
    {
        if c >= stop || self.end(c) <= c {
            Seq::empty()
        } else {
            seq![c] + self.siblings_from(self.end(c), stop)
        }
    }

    /// The children of a node, in source order.
    pub open spec fn children(self, i: int) -> Seq<int> {
        self.siblings_from(i + 1, self.end(i))
    }
}

/// A syntax tree with its source.
pub struct SyntaxTree {
    pub nodes: Vec<SyntaxNode>,
    pub parents: Vec<usize>,
    pub ends: Vec<usize>,
    pub source: Vec<u8>,
}

impl View for SyntaxTree {
    type V = Syntax;

    open spec fn view(&self) -> Syntax {
        Syntax {
            nodes: self.nodes@,
            parents: self.parents@,
            ends: self.ends@,
            source: self.source@,
        }
    }
}

/// The tree that the nodes form over a source.
pub open spec fn linked(nodes: Seq<SyntaxNode>, source: Seq<u8>) -> Syntax {
    choose|t: Syntax| t.wf() && t.nodes == nodes && t.source == source
}

/// The links of a tree are fixed by its nodes.
pub proof fn links_are_unique(t: Syntax)
    requires
        t.wf(),
    ensures
        linked(t.nodes, t.source) == t,
{
    let u = linked(t.nodes, t.source);
    assert(t.wf() && t.nodes == t.nodes && t.source == t.source);
    assert(u.wf() && u.nodes == t.nodes && u.source == t.source);
    assert forall|i: int| 0 <= i < t.len() implies t.ends[i] == u.ends[i] by {
        assert(t.end_at(i) && u.end_at(i));
        if t.ends[i] < u.ends[i] {
            assert(u.nodes[t.end(i)].depth > u.nodes[i].depth);
        }
        if u.ends[i] < t.ends[i] {
            assert(t.nodes[u.end(i)].depth > t.nodes[i].depth);
        }
    }
    assert forall|i: int| 0 <= i < t.len() implies t.parents[i] == u.parents[i] by {
        if i > 0 {
            assert(t.parent_at(i) && u.parent_at(i));
            if t.parents[i] < u.parents[i] {
                assert(t.nodes[u.parent(i)].depth >= t.nodes[i].depth);
            }
            if u.parents[i] < t.parents[i] {
                assert(u.nodes[t.parent(i)].depth >= u.nodes[i].depth);
            }
        }
    }
    assert(t.ends =~= u.ends);
    assert(t.parents =~= u.parents);
}

/// Why a source has no syntax tree to analyze.
#[derive(Clone, Copy, Debug, PartialEq, Eq, Structural)]
pub enum TreeError {
    /// The parser stopped without a tree.
    Cancelled,
    /// The nodes do not form a tree over the source.
    Malformed,
}

/// The tree of a source under the grammar of the given name: an error where the
/// parser gives none or one that does not fit the source.
pub open spec fn tree_of(label: Seq<char>, source: Seq<u8>) -> Result<Seq<SyntaxNode>, TreeError> {
    match parsed_nodes(label, source) {
        None => Err(TreeError::Cancelled),
        Some(nodes) => if well_shaped(nodes, source) {
            Ok(nodes)
        } else {
            Err(TreeError::Malformed)
        },
    }
}

impl SyntaxTree {
    pub open spec fn wf(&self) -> bool {
        self@.wf()
    }

    /// Parses a source with a grammar.
    pub fn parse(grammar: &Grammar, source: &[u8]) -> (tree: Result<Self, TreeError>)
        ensures
            tree is Ok <==> tree_of(grammar_label(*grammar), source@) is Ok,
            tree is Ok ==> {
                &&& tree->Ok_0.wf()
                &&& tree->Ok_0@.source == source@
                &&& tree_of(grammar_label(*grammar), source@) == Ok::<Seq<SyntaxNode>, TreeError>(
                    tree->Ok_0@.nodes,
                )
            },
            tree is Err ==> tree_of(grammar_label(*grammar), source@) == Err::<
                Seq<SyntaxNode>,
                TreeError,
            >(tree->Err_0),
    {
        match parse_source(grammar, source) {
            None => Err(TreeError::Cancelled),
            Some(parsed) => {
                let count: usize = node_count(&parsed);
                let mut nodes: Vec<SyntaxNode> = Vec::new();
                let mut i: usize = 0;
                while i < count
                    invariant
                        count == tree_nodes(parsed).len(),
                        i <= count,
                        nodes@ == tree_nodes(parsed).subrange(0, i as int),
                    decreases count - i,
                {
                    let node = node_at(&parsed, i);
                    nodes.push(node);
                    i = i + 1;
                    assert(nodes@ =~= tree_nodes(parsed).subrange(0, i as int));
                }
                assert(nodes@ =~= tree_nodes(parsed));
                Self::link(nodes, source)
            },
        }
    }

    /// Links the nodes of a tree to their parents and subtree ends.
    pub fn link(nodes: Vec<SyntaxNode>, source: &[u8]) -> (tree: Result<Self, TreeError>)
        ensures
            tree is Ok <==> well_shaped(nodes@, source@),
            tree is Ok ==> {
                &&& tree->Ok_0.wf()
                &&& tree->Ok_0@.source == source@
                &&& tree->Ok_0@.nodes == nodes@
            },
            tree is Err ==> tree->Err_0 == TreeError::Malformed,
    {
        if !shaped(&nodes, source) {
            return Err(TreeError::Malformed);
        }
        let ends = subtree_ends(&nodes);
        let parents = node_parents(&nodes);
        let tree = SyntaxTree { nodes, parents, ends, source: slice_to_vec(source) };
        assert forall|i: int| 0 <= i < tree@.len() implies #[trigger] tree@.end_at(i) by {
            assert(ends_at(nodes@, ends@, i));
        }
        assert forall|i: int| 0 < i < tree@.len() implies #[trigger] tree@.parent_at(i) by {
            assert(parents_at(nodes@, parents@, i));
        }
        Ok(tree)
    }

    /// The kind of a node is the given one.
    pub fn is(&self, i: usize, kind: &str) -> (r: bool)
        requires
            self.wf(),
            i < self@.len(),
        ensures
            r == (self@.kind(i as int) == kind@),
    {
        same(self.nodes[i].kind, kind)
    }

    pub fn kind(&self, i: usize) -> (kind: &'static str)
        requires
            self.wf(),
            i < self@.len(),
        ensures
            kind@ == self@.kind(i as int),
    {
        self.nodes[i].kind
    }

    /// The characters that a node spans.
    pub fn text(&self, i: usize) -> (text: &str)
        requires
            self.wf(),
            i < self@.len(),
        ensures
            text@ == self@.text(i as int),
    {
        let node = &self.nodes[i];
        decode(slice_subrange(self.source.as_slice(), node.start_byte, node.end_byte))
    }

    /// The child that fills a field.
    pub fn field(&self, i: usize, field: &str) -> (child: Option<usize>)
        requires
            self.wf(),
            i < self@.len(),
        ensures
            found(child) == self@.field(i as int, field@),
            child is Some ==> i < child->0 < self@.end(i as int) <= self@.len(),
    {
        assert(self@.end_at(i as int));
        let stop: usize = self.ends[i];
        let mut c: usize = i + 1;
        while c < stop
            invariant
                self.wf(),
                i < c,
                stop <= self@.len(),
                stop == self@.end(i as int),
                self@.find_field(c as int, stop as int, field@) == self@.find_field(
                    i + 1,
                    stop as int,
                    field@,
                ),
            decreases remaining(c as int, stop as int),
        {
            assert(self@.end_at(c as int));
            if same(self.nodes[c].field, field) {
                return Some(c);
            }
            c = self.ends[c];
        }
        None
    }

    /// The named children of a node, in source order.
    pub fn named_children(&self, i: usize) -> (children: Vec<usize>)
        requires
            self.wf(),
            i < self@.len(),
        ensures
            indices(children@) == self@.named_children(i as int),
            forall|k: int|
                0 <= k < children@.len() ==> i < #[trigger] children@[k] < self@.end(i as int),
            self@.end(i as int) <= self@.len(),
    {
        assert(self@.end_at(i as int));
        let stop: usize = self.ends[i];
        let mut c: usize = i + 1;
        let mut children: Vec<usize> = Vec::new();
        while c < stop
            invariant
                self.wf(),
                i < c,
                stop <= self@.len(),
                stop == self@.end(i as int),
                indices(children@) + self@.named_from(c as int, stop as int) == self@.named_from(
                    i + 1,
                    stop as int,
                ),
                forall|k: int| 0 <= k < children@.len() ==> i < #[trigger] children@[k] < stop,
            decreases remaining(c as int, stop as int),
        {
            assert(self@.end_at(c as int));
            let ghost rest = self@.named_from(self@.end(c as int), stop as int);
            if self.nodes[c].named {
                let ghost before = children@;
                children.push(c);
                assert(indices(children@) =~= indices(before).push(c as int));
                assert(indices(before) + (seq![c as int] + rest) =~= indices(children@) + rest);
            }
            c = self.ends[c];
        }
        assert(indices(children@) + Seq::<int>::empty() =~= indices(children@));
        children
    }

    /// The children of a node, in source order.
    pub fn children(&self, i: usize) -> (children: Vec<usize>)
        requires
            self.wf(),
            i < self@.len(),
        ensures
            indices(children@) == self@.children(i as int),
            forall|k: int|
                0 <= k < children@.len() ==> i < #[trigger] children@[k] < self@.end(i as int),
            self@.end(i as int) <= self@.len(),
    {
        assert(self@.end_at(i as int));
        let stop: usize = self.ends[i];
        let mut c: usize = i + 1;
        let mut children: Vec<usize> = Vec::new();
        while c < stop
            invariant
                self.wf(),
                i < c,
                stop <= self@.len(),
                stop == self@.end(i as int),
                indices(children@) + self@.siblings_from(c as int, stop as int)
                    == self@.siblings_from(i + 1, stop as int),
                forall|k: int| 0 <= k < children@.len() ==> i < #[trigger] children@[k] < stop,
            decreases remaining(c as int, stop as int),
        {
            assert(self@.end_at(c as int));
            let ghost rest = self@.siblings_from(self@.end(c as int), stop as int);
            let ghost before = children@;
            children.push(c);
            assert(indices(children@) =~= indices(before).push(c as int));
            assert(indices(before) + (seq![c as int] + rest) =~= indices(children@) + rest);
            c = self.ends[c];
        }
        assert(indices(children@) + Seq::<int>::empty() =~= indices(children@));
        children
    }

    /// The named children of a node that are of one kind, in source order.
    pub fn named_of_kind(&self, i: usize, kind: &str) -> (children: Vec<usize>)
        requires
            self.wf(),
            i < self@.len(),
        ensures
            indices(children@) == self@.named_of_kind(i as int, kind@),
            forall|k: int|
                0 <= k < children@.len() ==> i < #[trigger] children@[k] < self@.end(i as int),
            self@.end(i as int) <= self@.len(),
    {
        assert(self@.end_at(i as int));
        let stop: usize = self.ends[i];
        let mut c: usize = i + 1;
        let mut children: Vec<usize> = Vec::new();
        while c < stop
            invariant
                self.wf(),
                i < c,
                stop <= self@.len(),
                stop == self@.end(i as int),
                indices(children@) + self@.named_kind_from(c as int, stop as int, kind@)
                    == self@.named_kind_from(i + 1, stop as int, kind@),
                forall|k: int| 0 <= k < children@.len() ==> i < #[trigger] children@[k] < stop,
            decreases remaining(c as int, stop as int),
        {
            assert(self@.end_at(c as int));
            let ghost rest = self@.named_kind_from(self@.end(c as int), stop as int, kind@);
            if self.nodes[c].named && self.is(c, kind) {
                let ghost before = children@;
                children.push(c);
                assert(indices(children@) =~= indices(before).push(c as int));
                assert(indices(before) + (seq![c as int] + rest) =~= indices(children@) + rest);
            }
            c = self.ends[c];
        }
        assert(indices(children@) + Seq::<int>::empty() =~= indices(children@));
        children
    }

    /// A child of the node is of the given kind.
    pub fn has_child(&self, i: usize, kind: &str) -> (r: bool)
        requires
            self.wf(),
            i < self@.len(),
        ensures
            r == self@.has_child(i as int, kind@),
    {
        let children = self.children(i);
        let mut k: usize = 0;
        while k < children.len()
            invariant
                self.wf(),
                indices(children@) == self@.children(i as int),
                k <= children@.len(),
                self@.end(i as int) <= self@.len(),
                forall|n: int|
                    0 <= n < children@.len() ==> i < #[trigger] children@[n] < self@.end(i as int),
                forall|n: int|
                    0 <= n < k ==> self@.kind(#[trigger] self@.children(i as int)[n]) != kind@,
            decreases children@.len() - k,
        {
            assert(self@.children(i as int)[k as int] == children@[k as int]);
            if self.is(children[k], kind) {
                return true;
            }
            k = k + 1;
        }
        false
    }
}

/// A node index as a mathematical integer.
pub open spec fn found(node: Option<usize>) -> Option<int> {
    match node {
        Some(i) => Some(i as int),
        None => None,
    }
}

/// Node indices as mathematical integers.
pub open spec fn indices(nodes: Seq<usize>) -> Seq<int> {
    Seq::new(nodes.len(), |k: int| nodes[k] as int)
}

/// The first named child.
pub open spec fn first_named(t: Syntax, i: int) -> Option<int> {
    if t.named_children(i).len() > 0 {
        Some(t.named_children(i)[0])
    } else {
        None
    }
}

/// The first named child.
pub fn first_named_child(tree: &SyntaxTree, i: usize) -> (child: Option<usize>)
    requires
        tree.wf(),
        i < tree@.len(),
    ensures
        found(child) == first_named(tree@, i as int),
        child is Some ==> i < child->0 < tree@.end(i as int) <= tree@.len(),
{
    let children = tree.named_children(i);
    assert(indices(children@).len() == children@.len());
    if children.len() == 0 {
        None
    } else {
        assert(indices(children@)[0] == children@[0]);
        Some(children[0])
    }
}

spec fn ends_at(nodes: Seq<SyntaxNode>, ends: Seq<usize>, i: int) -> bool {
    let end = ends[i] as int;
    &&& i < end <= nodes.len()
    &&& forall|k: int| i < k < end ==> #[trigger] nodes[k].depth > nodes[i].depth
    &&& end < nodes.len() ==> nodes[end].depth <= nodes[i].depth
}

spec fn parents_at(nodes: Seq<SyntaxNode>, parents: Seq<usize>, i: int) -> bool {
    let parent = parents[i] as int;
    &&& 0 <= parent < i
    &&& nodes[parent].depth + 1 == nodes[i].depth
    &&& forall|k: int| parent < k < i ==> #[trigger] nodes[k].depth >= nodes[i].depth
}

fn shaped(nodes: &Vec<SyntaxNode>, source: &[u8]) -> (r: bool)
    ensures
        r == well_shaped(nodes@, source@),
{
    let length: usize = source.len();
    let count: usize = physical_lines(source);
    let most: usize = if count == 0 {
        1
    } else {
        count
    };
    if nodes.len() == 0 || nodes.len() > POSITION_LIMIT || nodes[0].depth != 0 {
        return false;
    }
    let mut i: usize = 0;
    while i < nodes.len()
        invariant
            0 < nodes@.len() <= POSITION_LIMIT,
            nodes@[0].depth == 0,
            i <= nodes@.len(),
            forall|k: int| 0 < k < i ==> #[trigger] nested_at(nodes@, k),
            length == source@.len(),
            count == lines(source@).len(),
            most == if count == 0 {
                1
            } else {
                count
            },
            forall|k: int|
                0 <= k < i ==> node_placed(#[trigger] nodes@[k], length as int, count as int),
        decreases nodes@.len() - i,
    {
        let node = &nodes[i];
        if node.start_byte > node.end_byte || node.end_byte > length || node.start_row
            >= POSITION_LIMIT || node.start_column >= POSITION_LIMIT || node.end_row
            >= POSITION_LIMIT {
            assert(!node_placed(nodes@[i as int], length as int, count as int));
            return false;
        }
        let last: usize = if node.end_column == 0 && node.end_row > 0 {
            node.end_row
        } else {
            node.end_row + 1
        };
        if node.start_row > node.end_row || last > most {
            assert(!node_placed(nodes@[i as int], length as int, count as int));
            return false;
        }
        if i > 0 && (node.depth == 0 || node.depth - 1 > nodes[i - 1].depth) {
            assert(!nested_at(nodes@, i as int));
            return false;
        }
        i = i + 1;
    }
    true
}

fn subtree_ends(nodes: &Vec<SyntaxNode>) -> (ends: Vec<usize>)
    ensures
        ends@.len() == nodes@.len(),
        forall|i: int| 0 <= i < nodes@.len() ==> #[trigger] ends_at(nodes@, ends@, i),
{
    let n: usize = nodes.len();
    let mut ends: Vec<usize> = Vec::new();
    let mut filled: usize = 0;
    while filled < n
        invariant
            n == nodes@.len(),
            filled <= n,
            ends@.len() == filled,
            forall|i: int| 0 <= i < filled ==> ends@[i] == 0,
        decreases n - filled,
    {
        ends.push(0);
        filled = filled + 1;
    }
    let mut i: usize = n;
    while i > 0
        invariant
            n == nodes@.len(),
            i <= n,
            ends@.len() == n,
            forall|k: int| i <= k < n ==> #[trigger] ends_at(nodes@, ends@, k),
        decreases i,
    {
        i = i - 1;
        let mut end: usize = i + 1;
        while end < n && nodes[end].depth > nodes[i].depth
            invariant
                n == nodes@.len(),
                i < end <= n,
                ends@.len() == n,
                forall|k: int| i < k < n ==> #[trigger] ends_at(nodes@, ends@, k),
                forall|k: int| i < k < end ==> #[trigger] nodes@[k].depth > nodes@[i as int].depth,
            decreases n - end,
        {
            assert(ends_at(nodes@, ends@, end as int));
            end = ends[end];
        }
        let ghost before = ends@;
        ends.set(i, end);
        assert forall|k: int| i <= k < n implies #[trigger] ends_at(nodes@, ends@, k) by {
            if k > i {
                assert(ends_at(nodes@, before, k));
            }
        }
    }
    ends
}

fn node_parents(nodes: &Vec<SyntaxNode>) -> (parents: Vec<usize>)
    requires
        well_nested(nodes@),
    ensures
        parents@.len() == nodes@.len(),
        parents@[0] == 0,
        forall|i: int| 0 < i < nodes@.len() ==> #[trigger] parents_at(nodes@, parents@, i),
{
    let n: usize = nodes.len();
    let mut parents: Vec<usize> = Vec::new();
    parents.push(0);
    let mut i: usize = 1;
    while i < n
        invariant
            n == nodes@.len(),
            well_nested(nodes@),
            1 <= i <= n,
            parents@.len() == i,
            parents@[0] == 0,
            forall|k: int| 0 < k < i ==> #[trigger] parents_at(nodes@, parents@, k),
        decreases n - i,
    {
        let mut parent: usize = i - 1;
        assert(nested_at(nodes@, i as int));
        while nodes[parent].depth >= nodes[i].depth
            invariant
                n == nodes@.len(),
                well_nested(nodes@),
                parent < i < n,
                parents@.len() == i,
                nodes@[i as int].depth >= 1,
                forall|k: int| 0 < k < i ==> #[trigger] parents_at(nodes@, parents@, k),
                forall|k: int|
                    parent < k < i ==> #[trigger] nodes@[k].depth >= nodes@[i as int].depth,
            decreases parent,
        {
            assert(parent > 0);
            assert(parents_at(nodes@, parents@, parent as int));
            parent = parents[parent];
        }
        assert(nested_at(nodes@, parent + 1));
        let ghost before = parents@;
        parents.push(parent);
        assert forall|k: int| 0 < k <= i implies #[trigger] parents_at(nodes@, parents@, k) by {
            if k < i {
                assert(parents_at(nodes@, before, k));
            }
        }
        i = i + 1;
    }
    parents
}

} // verus!
