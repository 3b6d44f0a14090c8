//! Rendering a tree row as text: two spaces of indent per level, an arrow
//! for expandable nodes, the runtime type and the description. `flatten_tree`
//! produces the rows of the flattened view in pre-order.

use vstd::prelude::*;
use crate::idset::IdSet;
use crate::node::{subtree_size, subtree_size_from, RemoteDiagnosticsNode};
use crate::tree_nav::{is_expanded, is_expanded_spec, visible_count, visible_count_from};

verus! {

/// A tree of this kind can be drawn: it exposes its children, an optional
/// identity, and one line of text per node.
pub trait Treeable: Sized {
    fn children(&self) -> Option<&Vec<Self>>;

    fn id(&self) -> Option<&str>;

    fn render(&self, depth: usize, is_expanded: bool) -> String;
}

impl Treeable for RemoteDiagnosticsNode {
    fn children(&self) -> Option<&Vec<Self>> {
        match &self.children {
            Some(c) => Some(c),
            None => None,
        }
    }

    fn id(&self) -> Option<&str> {
        match &self.value_id {
            Some(v) => Some(v.as_str()),
            None => match &self.object_id {
                Some(o) => Some(o.as_str()),
                None => None,
            },
        }
    }

    fn render(&self, depth: usize, is_expanded: bool) -> String {
        render_node(self, depth, is_expanded)
    }
}

pub open spec fn has_children_spec(node: RemoteDiagnosticsNode) -> bool {
    node.spec_children().len() > 0
}

pub fn has_children(node: &RemoteDiagnosticsNode) -> (r: bool)
    ensures
        r == has_children_spec(*node),
{
    match &node.children {
        Some(c) => c.len() > 0,
        None => false,
    }
}

/// Two spaces per level of depth.
pub open spec fn indent_spec(depth: nat) -> Seq<char>
    decreases depth,
{
    if depth == 0 {
        Seq::empty()
    } else {
        indent_spec((depth - 1) as nat) + "  "@
    }
}

/// The expansion marker: an arrow for nodes with children, blank otherwise.
pub open spec fn icon_spec(node: RemoteDiagnosticsNode, expanded: bool) -> Seq<char> {
    if has_children_spec(node) {
        if expanded {
            "▼ "@
        } else {
            "▶ "@
        }
    } else {
        "  "@
    }
}

/// The displayed type: the widget runtime type if known, else the structural
/// kind, else a placeholder.
pub open spec fn type_name_spec(node: RemoteDiagnosticsNode) -> Seq<char> {
    match node.widget_runtime_type {
        Some(w) => w@,
        None => match node.node_type {
            Some(t) => t@,
            None => "Unknown"@,
        },
    }
}

pub open spec fn description_spec(node: RemoteDiagnosticsNode) -> Seq<char> {
    match node.description {
        Some(d) => d@,
        None => "?"@,
    }
}

/// The full row: indent, marker, type name, and the description in
/// parentheses.
pub open spec fn render_spec(node: RemoteDiagnosticsNode, depth: nat, expanded: bool) -> Seq<
    char,
> {
    indent_spec(depth) + icon_spec(node, expanded) + type_name_spec(node) + " ("@
        + description_spec(node) + ")"@
}

/// Builds the displayed row for one node.
pub fn render_node(node: &RemoteDiagnosticsNode, depth: usize, expanded: bool) -> (r: String)
    ensures
        r@ == render_spec(*node, depth as nat, expanded),
{
    let mut s = String::new();
    let mut i: usize = 0;
    while i < depth
        invariant
            i <= depth,
            s@ == indent_spec(i as nat),
        decreases depth - i,
    {
        s.append("  ");
        i += 1;
    }
    if has_children(node) {
        if expanded {
            s.append("▼ ");
        } else {
            s.append("▶ ");
        }
    } else {
        s.append("  ");
    }
    match &node.widget_runtime_type {
        Some(w) => s.append(w.as_str()),
        None => match &node.node_type {
            Some(t) => s.append(t.as_str()),
            None => s.append("Unknown"),
        },
    }
    s.append(" (");
    match &node.description {
        Some(d) => s.append(d.as_str()),
        None => s.append("?"),
    }
    s.append(")");
    s
}

/// The rendered rows of the flattened view of this subtree, its root drawn
/// at depth `d`.
pub open spec fn flat_lines(node: RemoteDiagnosticsNode, s: Set<Seq<char>>, d: nat) -> Seq<
    Seq<char>,
>
    decreases node, 1int, 0int,
{
    seq![render_spec(node, d, is_expanded_spec(node, s))] + if is_expanded_spec(node, s) {
        flat_lines_from(node, s, d, 0)
    } else {
        Seq::empty()
    }
}

pub open spec fn flat_lines_from(
    node: RemoteDiagnosticsNode,
    s: Set<Seq<char>>,
    d: nat,
    i: int,
) -> Seq<Seq<char>>
    decreases node, 0int, node.spec_children().len() - i,
{
    if 0 <= i < node.spec_children().len() {
        flat_lines(node.spec_children()[i], s, d + 1) + flat_lines_from(node, s, d, i + 1)
    } else {
        Seq::empty()
    }
}

/// The rows rendered for the first `j` children's subtrees.
pub open spec fn flat_lines_prefix(
    node: RemoteDiagnosticsNode,
    s: Set<Seq<char>>,
    d: nat,
    j: int,
) -> Seq<Seq<char>>
    decreases j,
{
    if j <= 0 {
        Seq::empty()
    } else {
        flat_lines_prefix(node, s, d, j - 1) + flat_lines(node.spec_children()[j - 1], s, d + 1)
    }
}

/// Flattening consistency, for the rendered rows: the flattened view has
/// exactly `visible_count` rows.
pub proof fn lemma_flat_lines_count(node: RemoteDiagnosticsNode, s: Set<Seq<char>>, d: nat)
    ensures
        flat_lines(node, s, d).len() == visible_count(node, s),
    decreases node, 1int, 0int,
{
    if is_expanded_spec(node, s) {
        lemma_flat_lines_count_from(node, s, d, 0);
    }
}

pub proof fn lemma_flat_lines_count_from(
    node: RemoteDiagnosticsNode,
    s: Set<Seq<char>>,
    d: nat,
    i: int,
)
    ensures
        flat_lines_from(node, s, d, i).len() == visible_count_from(node, s, i),
    decreases node, 0int, node.spec_children().len() - i,
{
    if 0 <= i < node.spec_children().len() {
        lemma_flat_lines_count(node.spec_children()[i], s, (d + 1) as nat);
        lemma_flat_lines_count_from(node, s, d, i + 1);
    }
}

/// The first `j` children's rows followed by the rows from child `j` on are
/// all the children's rows.
proof fn lemma_lines_prefix(node: RemoteDiagnosticsNode, s: Set<Seq<char>>, d: nat, j: int)
    requires
        0 <= j <= node.spec_children().len(),
    ensures
        flat_lines_prefix(node, s, d, j) + flat_lines_from(node, s, d, j) =~= flat_lines_from(
            node,
            s,
            d,
            0,
        ),
    decreases j,
{
    if j > 0 {
        lemma_lines_prefix(node, s, d, j - 1);
        assert(flat_lines_prefix(node, s, d, j) + flat_lines_from(node, s, d, j)
            =~= flat_lines_prefix(node, s, d, j - 1) + (flat_lines(
            node.spec_children()[j - 1],
            s,
            d + 1,
        ) + flat_lines_from(node, s, d, j)));
    }
}

/// A child's subtree is strictly smaller than its parent's.
pub proof fn lemma_child_size(node: RemoteDiagnosticsNode, i: int)
    requires
        0 <= i < node.spec_children().len(),
    ensures
        subtree_size(node.spec_children()[i]) < subtree_size(node),
{
    lemma_size_mono(node, 0, i);
}

proof fn lemma_size_mono(node: RemoteDiagnosticsNode, a: int, b: int)
    requires
        0 <= a <= b < node.spec_children().len(),
    ensures
        subtree_size(node.spec_children()[b]) <= subtree_size_from(node, a),
    decreases b - a,
{
    if a < b {
        lemma_size_mono(node, a + 1, b);
    }
}

/// True when every row of `ls` reads as the corresponding entry of `specs`.
pub open spec fn lines_match(ls: Seq<String>, specs: Seq<Seq<char>>) -> bool {
    ls.len() == specs.len() && forall|k: int| 0 <= k < ls.len() ==> ls[k]@ == specs[k]
}

/// Appends the rendered rows of the flattened view of this subtree, drawn at
/// `depth`, to `lines`.
pub fn flatten_tree(
    node: &RemoteDiagnosticsNode,
    depth: usize,
    lines: &mut Vec<String>,
    expanded_ids: &IdSet,
)
    requires
        depth + subtree_size(*node) <= usize::MAX,
        old(lines)@.len() + visible_count(*node, expanded_ids@) <= usize::MAX,
    ensures
        final(lines)@.len() == old(lines)@.len() + visible_count(*node, expanded_ids@),
        final(lines)@.subrange(0, old(lines)@.len() as int) == old(lines)@,
        lines_match(
            final(lines)@.skip(old(lines)@.len() as int),
            flat_lines(*node, expanded_ids@, depth as nat),
        ),
    decreases *node,
{
    let ghost s = expanded_ids@;
    let ghost base = lines@.len();
    let ghost d = depth as nat;
    proof {
        lemma_flat_lines_count(*node, s, d);
    }
    let expanded = is_expanded(node, expanded_ids);
    lines.push(render_node(node, depth, expanded));
    if expanded {
        if let Some(children) = &node.children {
            let n = children.len();
            let mut i: usize = 0;
            while i < n
                invariant
                    n == children@.len(),
                    i <= n,
                    children@ == node.spec_children(),
                    is_expanded_spec(*node, s),
                    s == expanded_ids@,
                    d == depth as nat,
                    base == old(lines)@.len(),
                    depth + subtree_size(*node) <= usize::MAX,
                    base + visible_count(*node, s) <= usize::MAX,
                    lines@.len() == base + 1 + flat_lines_prefix(*node, s, d, i as int).len(),
                    flat_lines_prefix(*node, s, d, i as int).len() + visible_count_from(
                        *node,
                        s,
                        i as int,
                    ) == visible_count_from(*node, s, 0),
                    lines@.subrange(0, base as int) == old(lines)@,
                    lines@[base as int]@ == render_spec(*node, d, true),
                    lines_match(
                        lines@.skip(base + 1 as int),
                        flat_lines_prefix(*node, s, d, i as int),
                    ),
                decreases n - i,
            {
                proof {
                    lemma_child_size(*node, i as int);
                    lemma_flat_lines_count(node.spec_children()[i as int], s, d + 1);
                    lemma_counts_mono_local(*node, s, i as int);
                }
                let ghost lines_before = lines@;
                flatten_tree(&children[i], depth + 1, lines, expanded_ids);
                i += 1;
                proof {
                    assert(lines@.subrange(0, base as int) =~= lines_before.subrange(
                        0,
                        base as int,
                    ));
                    assert(flat_lines_prefix(*node, s, d, i as int) =~= flat_lines_prefix(
                        *node,
                        s,
                        d,
                        i - 1,
                    ) + flat_lines(node.spec_children()[i - 1], s, d + 1));
                    assert forall|k: int|
                        0 <= k < flat_lines_prefix(*node, s, d, i as int).len() implies lines@.skip(
                        base + 1 as int,
                    )[k]@ == flat_lines_prefix(*node, s, d, i as int)[k] by {
                        if k < flat_lines_prefix(*node, s, d, i - 1).len() {
                            assert(lines@[base + 1 + k] == lines_before[base + 1 + k]) by {
                                assert(lines@.subrange(0, lines_before.len() as int)
                                    == lines_before);
                                assert(lines@.subrange(0, lines_before.len() as int)[base + 1 + k]
                                    == lines@[base + 1 + k]);
                            }
                        } else {
                            let k2 = k - flat_lines_prefix(*node, s, d, i - 1).len();
                            assert(lines@.skip(lines_before.len() as int)[k2]@ == flat_lines(
                                node.spec_children()[i - 1],
                                s,
                                d + 1,
                            )[k2]);
                        }
                    }
                }
            }
            proof {
                lemma_lines_prefix(*node, s, d, n as int);
                assert(lines_match(lines@.skip(base as int), flat_lines(*node, s, d))) by {
                    assert(flat_lines(*node, s, d) == seq![
                        render_spec(*node, d, true),
                    ] + flat_lines_from(*node, s, d, 0));
                    assert(lines@.skip(base as int)[0] == lines@[base as int]);
                    assert forall|k: int|
                        0 <= k < lines@.skip(base as int).len() implies lines@.skip(base as int)[k]@
                        == flat_lines(*node, s, d)[k] by {
                        if k > 0 {
                            assert(lines@.skip(base + 1 as int)[k - 1] == lines@.skip(base as int)[k]);
                        }
                    }
                }
            }
            return;
        }
    }
    proof {
        assert(lines@.subrange(0, base as int) =~= old(lines)@);
        assert(lines_match(lines@.skip(base as int), flat_lines(*node, s, d)));
    }
}

/// Visible counts shrink as the starting child index grows; the prefix of
/// rendered rows grows by the same amount.
proof fn lemma_counts_mono_local(node: RemoteDiagnosticsNode, s: Set<Seq<char>>, i: int)
    requires
        0 <= i < node.spec_children().len(),
    ensures
        visible_count(node.spec_children()[i], s) <= visible_count_from(node, s, i),
{
}

} // verus!
