//! Tree: a nested list whose rows show the nodes that are visible under the
//! caller's expansion state.

use vstd::prelude::*;
use crate::icon::Icon;
use crate::text::{chars_of, same_chars};

verus! {

pub struct TreeNode {
    pub id: String,
    pub label: String,
    pub icon: Option<Icon>,
    pub children: Vec<TreeNode>,
}

impl TreeNode {
    pub fn new(id: &str, label: &str) -> (r: TreeNode)
        ensures
            r.id@ == id@,
            r.label@ == label@,
            r.icon is None,
            r.children@.len() == 0,
    {
        TreeNode {
            id: String::from_str(id),
            label: String::from_str(label),
            icon: None,
            children: Vec::new(),
        }
    }

    /// Sets the icon shown before the label.
    pub fn icon(self, icon: Icon) -> (r: TreeNode)
        ensures
            r.id == self.id,
            r.label == self.label,
            r.icon == Some(icon),
            r.children == self.children,
    {
        let mut s = self;
        s.icon = Some(icon);
        s
    }

    /// Appends one child.
    pub fn child(self, child: TreeNode) -> (r: TreeNode)
        ensures
            r.id == self.id,
            r.label == self.label,
            r.icon == self.icon,
            r.children@ == self.children@.push(child),
    {
        let mut s = self;
        s.children.push(child);
        s
    }

    /// Replaces the children.
    pub fn children(self, children: Vec<TreeNode>) -> (r: TreeNode)
        ensures
            r.id == self.id,
            r.label == self.label,
            r.icon == self.icon,
            r.children@ == children@,
    {
        let mut s = self;
        s.children = children;
        s
    }
}

/// One visible row of the tree.
pub struct TreeRow {
    pub id: String,
    pub label: String,
    pub icon: Option<Icon>,
    /// Nesting level; top-level nodes are at depth 0.
    pub depth: usize,
    /// Whether the row has an expand/collapse chevron.
    pub has_children: bool,
    pub expanded: bool,
    pub selected: bool,
}

/// A row as plain values.
pub struct RowView {
    pub id: Seq<char>,
    pub label: Seq<char>,
    pub icon: Option<Icon>,
    pub depth: nat,
    pub has_children: bool,
    pub expanded: bool,
    pub selected: bool,
}

pub open spec fn row_view(r: TreeRow) -> RowView {
    RowView {
        id: r.id@,
        label: r.label@,
        icon: r.icon,
        depth: r.depth as nat,
        has_children: r.has_children,
        expanded: r.expanded,
        selected: r.selected,
    }
}

pub open spec fn rows_view(rows: Seq<TreeRow>) -> Seq<RowView> {
    rows.map_values(|r: TreeRow| row_view(r))
}

/// Whether `id` is among the expanded ids.
pub open spec fn is_expanded(expanded: Seq<String>, id: Seq<char>) -> bool {
    exists|i: int| 0 <= i < expanded.len() && expanded[i]@ == id
}

/// The rows of `node` at `depth`: its own row, then, when it is expanded,
/// the rows of its children one level deeper.
pub open spec fn node_rows(
    node: TreeNode,
    depth: nat,
    expanded: Seq<String>,
    selected: Option<Seq<char>>,
) -> Seq<RowView>
    decreases node, 1nat,
{
    let open = is_expanded(expanded, node.id@);
    let row = RowView {
        id: node.id@,
        label: node.label@,
        icon: node.icon,
        depth,
        has_children: node.children@.len() > 0,
        expanded: open,
        selected: selected == Some(node.id@),
    };
    if open {
        seq![row] + forest_rows(node.children@, depth + 1, expanded, selected)
    } else {
        seq![row]
    }
}

/// The rows of `nodes`, one node after the other.
pub open spec fn forest_rows(
    nodes: Seq<TreeNode>,
    depth: nat,
    expanded: Seq<String>,
    selected: Option<Seq<char>>,
) -> Seq<RowView>
    decreases nodes, 0nat,
{
    if nodes.len() == 0 {
        Seq::empty()
    } else {
        forest_rows(nodes.drop_last(), depth, expanded, selected) + node_rows(
            nodes.last(),
            depth,
            expanded,
            selected,
        )
    }
}

/// Number of levels of `node` and its descendants.
pub open spec fn node_height(node: TreeNode) -> nat
    decreases node, 1nat,
{
    1 + forest_height(node.children@)
}

/// Number of levels of the deepest of `nodes`.
pub open spec fn forest_height(nodes: Seq<TreeNode>) -> nat
    decreases nodes, 0nat,
{
    if nodes.len() == 0 {
        0
    } else {
        let a = forest_height(nodes.drop_last());
        let b = node_height(nodes.last());
        if a >= b {
            a
        } else {
            b
        }
    }
}

pub proof fn lemma_forest_height_bound(nodes: Seq<TreeNode>, i: int)
    requires
        0 <= i < nodes.len(),
    ensures
        node_height(nodes[i]) <= forest_height(nodes),
        forest_height(nodes.take(i)) <= forest_height(nodes),
    decreases nodes.len(),
{
    if i < nodes.len() - 1 {
        lemma_forest_height_bound(nodes.drop_last(), i);
        assert(nodes.drop_last()[i] == nodes[i]);
        assert(nodes.drop_last().take(i) =~= nodes.take(i));
    } else {
        assert(nodes.take(i) =~= nodes.drop_last());
    }
}

pub open spec fn selected_view(selected: Option<&str>) -> Option<Seq<char>> {
    match selected {
        Some(s) => Some(s@),
        None => None,
    }
}

fn contains_id(expanded: &Vec<String>, id: &String) -> (r: bool)
    ensures
        r == is_expanded(expanded@, id@),
{
    let mut i: usize = 0;
    while i < expanded.len()
        invariant
            i <= expanded@.len(),
            forall|j: int| 0 <= j < i ==> expanded@[j]@ != id@,
        decreases expanded@.len() - i,
    {
        if expanded[i].eq(id) {
            return true;
        }
        i = i + 1;
    }
    false
}

/// Appends the rows of `node` at `depth` to `sink`.
pub fn flatten(
    node: &TreeNode,
    depth: usize,
    expanded: &Vec<String>,
    selected: Option<&str>,
    sink: &mut Vec<TreeRow>,
)
    requires
        depth + node_height(*node) <= usize::MAX,
    ensures
        rows_view(final(sink)@) == rows_view(old(sink)@) + node_rows(
            *node,
            depth as nat,
            expanded@,
            selected_view(selected),
        ),
    decreases node,
{
    let ghost start = rows_view(sink@);
    let open = contains_id(expanded, &node.id);
    let is_selected = match selected {
        Some(sel) => {
            let a = chars_of(sel);
            let b = chars_of(node.id.as_str());
            same_chars(a.as_slice(), b.as_slice())
        },
        None => false,
    };
    let row = TreeRow {
        id: node.id.clone(),
        label: node.label.clone(),
        icon: node.icon.clone(),
        depth,
        has_children: node.children.len() > 0,
        expanded: open,
        selected: is_selected,
    };
    let ghost rv = row_view(row);
    sink.push(row);
    assert(rows_view(sink@) =~= start.push(rv));
    if open {
        let n = node.children.len();
        let mut i: usize = 0;
        let ghost kids = node.children@;
        assert(forest_rows(kids.take(0), (depth + 1) as nat, expanded@, selected_view(selected))
            =~= Seq::empty());
        while i < n
            invariant
                n == kids.len(),
                kids == node.children@,
                i <= n,
                depth + node_height(*node) <= usize::MAX,
                node_height(*node) == 1 + forest_height(kids),
                rows_view(sink@) == start.push(rv) + forest_rows(
                    kids.take(i as int),
                    (depth + 1) as nat,
                    expanded@,
                    selected_view(selected),
                ),
            decreases n - i,
        {
            proof {
                lemma_forest_height_bound(kids, i as int);
            }
            flatten(&node.children[i], depth + 1, expanded, selected, sink);
            proof {
                assert(kids.take(i + 1).drop_last() =~= kids.take(i as int));
                assert(kids.take(i + 1).last() == kids[i as int]);
            }
            i = i + 1;
        }
        assert(kids.take(n as int) =~= kids);
    }
}

/// The visible rows of the forest `nodes`: pre-order, descending only into
/// expanded nodes.
pub fn tree_rows(nodes: &Vec<TreeNode>, expanded: &Vec<String>, selected: Option<&str>) -> (r: Vec<
    TreeRow,
>)
    requires
        forest_height(nodes@) <= usize::MAX,
    ensures
        rows_view(r@) == forest_rows(nodes@, 0, expanded@, selected_view(selected)),
{
    let mut rows: Vec<TreeRow> = Vec::new();
    let n = nodes.len();
    let mut i: usize = 0;
    assert(rows_view(rows@) =~= Seq::empty());
    assert(forest_rows(nodes@.take(0), 0, expanded@, selected_view(selected)) =~= Seq::empty());
    while i < n
        invariant
            n == nodes@.len(),
            i <= n,
            forest_height(nodes@) <= usize::MAX,
            rows_view(rows@) == forest_rows(
                nodes@.take(i as int),
                0,
                expanded@,
                selected_view(selected),
            ),
        decreases n - i,
    {
        proof {
            lemma_forest_height_bound(nodes@, i as int);
        }
        flatten(&nodes[i], 0, expanded, selected, &mut rows);
        proof {
            assert(nodes@.take(i + 1).drop_last() =~= nodes@.take(i as int));
            assert(nodes@.take(i + 1).last() == nodes@[i as int]);
        }
        i = i + 1;
    }
    assert(nodes@.take(n as int) =~= nodes@);
    rows
}

/// With no node expanded, the rows are the given nodes themselves, in
/// order, at the given depth: every subtree stays hidden.
pub proof fn law_collapsed_forest(
    nodes: Seq<TreeNode>,
    depth: nat,
    expanded: Seq<String>,
    selected: Option<Seq<char>>,
)
    requires
        forall|k: int| 0 <= k < nodes.len() ==> !is_expanded(expanded, #[trigger] nodes[k].id@),
    ensures
        forest_rows(nodes, depth, expanded, selected).len() == nodes.len(),
        forall|k: int|
            0 <= k < nodes.len() ==> {
                let r = #[trigger] forest_rows(nodes, depth, expanded, selected)[k];
                &&& r.id == nodes[k].id@
                &&& r.label == nodes[k].label@
                &&& r.depth == depth
                &&& !r.expanded
            },
    decreases nodes.len(),
{
    if nodes.len() > 0 {
        let rest = nodes.drop_last();
        assert forall|k: int| 0 <= k < rest.len() implies !is_expanded(expanded, #[trigger] rest[k].id@) by {
            assert(rest[k] == nodes[k]);
        }
        law_collapsed_forest(rest, depth, expanded, selected);
        let last = nodes.last();
        assert(last == nodes[nodes.len() - 1]);
        assert(!is_expanded(expanded, last.id@));
        let fr = forest_rows(rest, depth, expanded, selected);
        let nr = node_rows(last, depth, expanded, selected);
        assert(nr.len() == 1);
        let all = forest_rows(nodes, depth, expanded, selected);
        assert(all == fr + nr);
        assert forall|k: int| 0 <= k < nodes.len() implies {
            let r = #[trigger] all[k];
            &&& r.id == nodes[k].id@
            &&& r.label == nodes[k].label@
            &&& r.depth == depth
            &&& !r.expanded
        } by {
            if k < rest.len() {
                assert(all[k] == fr[k]);
                assert(rest[k] == nodes[k]);
            } else {
                assert(all[k] == nr[0]);
            }
        }
    }
}

/// A row is selected exactly when its id is the selected id: no other row,
/// and in particular no descendant or id sharing a prefix with it, is marked.
pub proof fn law_selected_row_by_id(
    node: TreeNode,
    depth: nat,
    expanded: Seq<String>,
    selected: Option<Seq<char>>,
)
    ensures
        forall|k: int|
            0 <= k < node_rows(node, depth, expanded, selected).len() ==> (
            (#[trigger] node_rows(node, depth, expanded, selected)[k]).selected <==> selected
                == Some(node_rows(node, depth, expanded, selected)[k].id)),
    decreases node, 1nat,
{
    let rows = node_rows(node, depth, expanded, selected);
    let row = RowView {
        id: node.id@,
        label: node.label@,
        icon: node.icon,
        depth,
        has_children: node.children@.len() > 0,
        expanded: is_expanded(expanded, node.id@),
        selected: selected == Some(node.id@),
    };
    if is_expanded(expanded, node.id@) {
        lemma_selected_rows_of_forest(node.children@, depth + 1, expanded, selected);
        let kids = forest_rows(node.children@, depth + 1, expanded, selected);
        assert(rows == seq![row] + kids);
        assert forall|k: int| 0 <= k < rows.len() implies (#[trigger] rows[k]).selected
            <==> selected == Some(rows[k].id) by {
            if k > 0 {
                assert(rows[k] == kids[k - 1]);
            } else {
                assert(rows[0] == row);
            }
        }
    } else {
        assert(rows == seq![row]);
        assert forall|k: int| 0 <= k < rows.len() implies (#[trigger] rows[k]).selected
            <==> selected == Some(rows[k].id) by {
            assert(rows[0] == row);
        }
    }
}

proof fn lemma_selected_rows_of_forest(
    nodes: Seq<TreeNode>,
    depth: nat,
    expanded: Seq<String>,
    selected: Option<Seq<char>>,
)
    ensures
        forall|k: int|
            0 <= k < forest_rows(nodes, depth, expanded, selected).len() ==> (
            (#[trigger] forest_rows(nodes, depth, expanded, selected)[k]).selected <==> selected
                == Some(forest_rows(nodes, depth, expanded, selected)[k].id)),
    decreases nodes, 0nat,
{
    if nodes.len() > 0 {
        let rest = nodes.drop_last();
        let last = nodes.last();
        assert(decreases_to!(nodes => last)) by {
            assert(nodes[nodes.len() - 1] == last);
        }
        lemma_selected_rows_of_forest(rest, depth, expanded, selected);
        law_selected_row_by_id(last, depth, expanded, selected);
        let fr = forest_rows(rest, depth, expanded, selected);
        let nr = node_rows(last, depth, expanded, selected);
        let all = forest_rows(nodes, depth, expanded, selected);
        assert(all == fr + nr);
        assert forall|k: int| 0 <= k < all.len() implies (#[trigger] all[k]).selected
            <==> selected == Some(all[k].id) by {
            if k < fr.len() {
                assert(all[k] == fr[k]);
            } else {
                assert(all[k] == nr[k - fr.len()]);
            }
        }
    }
}

/// The rows of a whole tree, as [`tree_rows`] returns them, are selected
/// exactly when their id is the selected id.
pub proof fn law_selected_rows(
    nodes: Seq<TreeNode>,
    expanded: Seq<String>,
    selected: Option<Seq<char>>,
)
    ensures
        forall|k: int|
            0 <= k < forest_rows(nodes, 0, expanded, selected).len() ==> (
            (#[trigger] forest_rows(nodes, 0, expanded, selected)[k]).selected <==> selected
                == Some(forest_rows(nodes, 0, expanded, selected)[k].id)),
{
    lemma_selected_rows_of_forest(nodes, 0, expanded, selected);
}

} // verus!
