//! Which node of a laid-out document lies under the pointer.
use vstd::prelude::*;

verus! {

/// How the pointer lies to the boxes of a node, and of the nodes painted
/// inside it.
#[derive(Debug)]
pub struct HitNode {
    pub id: usize,
    /// The pointer is inside the node's own box.
    pub in_box: bool,
    /// The pointer is inside the box of the node's content.
    pub in_content: bool,
    /// The pointer is inside what the node's content overflows into.
    pub in_overflow: bool,
    /// The node clips what lies outside its box: its content is larger than
    /// the box, or is scrolled.
    pub clips: bool,
    /// The nodes painted inside this one, the topmost last.
    pub children: Vec<HitNode>,
}

impl HitNode {
    /// Whether the pointer reaches the node or what is painted inside it.
    pub open spec fn reached(&self) -> bool {
        self.in_box || !self.clips && (self.in_content || self.in_overflow)
    }
}

/// The topmost node under the pointer: what is painted later covers what is
/// painted earlier, and a node's own box lies below what is painted inside it.
pub open spec fn topmost(node: HitNode) -> Option<usize>
    decreases node,
{
    if !node.reached() {
        None
    } else {
        match topmost_of(node.children@) {
            Some(id) => Some(id),
            None => if node.in_box {
                Some(node.id)
            } else {
                None
            },
        }
    }
}

/// The topmost node under the pointer among nodes painted one after another.
pub open spec fn topmost_of(nodes: Seq<HitNode>) -> Option<usize>
    decreases nodes,
{
    if nodes.len() == 0 {
        None
    } else {
        match topmost(nodes[nodes.len() - 1]) {
            Some(id) => Some(id),
            None => topmost_of(nodes.subrange(0, nodes.len() - 1)),
        }
    }
}

/// The topmost node under the pointer.
pub fn hit_visible_node_id(node: &HitNode) -> (hit: Option<usize>)
    ensures
        hit == topmost(*node),
    decreases *node,
{
    if !(node.in_box || !node.clips && (node.in_content || node.in_overflow)) {
        return None;
    }
    let mut left: usize = node.children.len();
    proof {
        assert(node.children@.subrange(0, left as int) =~= node.children@);
    }
    while left > 0
        invariant
            left <= node.children@.len(),
            node.reached(),
            topmost_of(node.children@) == topmost_of(node.children@.subrange(0, left as int)),
        decreases left,
    {
        let ghost before = node.children@.subrange(0, left as int);
        left -= 1;
        proof {
            assert(before.subrange(0, left as int) =~= node.children@.subrange(0, left as int));
        }
        let hit = hit_visible_node_id(&node.children[left]);
        if hit.is_some() {
            return hit;
        }
    }
    if node.in_box {
        Some(node.id)
    } else {
        None
    }
}

/// Whether a node with the given id occurs in the tree with the pointer in its
/// box, below nodes that the pointer all reaches.
pub open spec fn occurs(node: HitNode, id: usize) -> bool
    decreases node,
{
    node.reached() && (node.in_box && node.id == id || occurs_in(node.children@, id))
}

/// Whether such a node occurs in one of the trees.
pub open spec fn occurs_in(nodes: Seq<HitNode>, id: usize) -> bool
    decreases nodes,
{
    nodes.len() > 0 && (occurs(nodes[nodes.len() - 1], id) || occurs_in(
        nodes.subrange(0, nodes.len() - 1),
        id,
    ))
}

/// What is hit has the pointer in its box, below nodes that the pointer all
/// reaches, and nothing is hit only where no node is like that.
pub proof fn hit_is_under_pointer(node: HitNode)
    ensures
        match topmost(node) {
            Some(id) => occurs(node, id),
            None => forall|id: usize| !occurs(node, id),
        },
    decreases node,
{
    hit_is_under_pointer_in(node.children@);
    assert forall|id: usize| topmost(node) is None implies !occurs(node, id) by {
        assert(node.reached() ==> !occurs_in(node.children@, id));
    }
}

proof fn hit_is_under_pointer_in(nodes: Seq<HitNode>)
    ensures
        match topmost_of(nodes) {
            Some(id) => occurs_in(nodes, id),
            None => forall|id: usize| !occurs_in(nodes, id),
        },
    decreases nodes,
{
    if nodes.len() > 0 {
        hit_is_under_pointer(nodes[nodes.len() - 1]);
        hit_is_under_pointer_in(nodes.subrange(0, nodes.len() - 1));
        assert forall|id: usize| topmost_of(nodes) is None implies !occurs_in(nodes, id) by {
            assert(!occurs(nodes[nodes.len() - 1], id));
            assert(!occurs_in(nodes.subrange(0, nodes.len() - 1), id));
        }
    }
}

/// A child that is hit hides its parent and the children painted before it.
pub proof fn later_children_cover(node: HitNode)
    requires
        node.reached(),
        node.children@.len() > 0,
        topmost(node.children@[node.children@.len() - 1]) is Some,
    ensures
        topmost(node) == topmost(node.children@[node.children@.len() - 1]),
{
}

/// A node that clips hides what lies outside of its box. One that does not is reached
/// wherever its content or what overflows it lies.
pub proof fn clipping_hides_the_outside(node: HitNode)
    ensures
        node.clips && !node.in_box ==> topmost(node) is None,
        !node.in_box && !node.in_content && !node.in_overflow ==> topmost(node) is None,
        node.in_box || (!node.clips && (node.in_content || node.in_overflow)) ==> (
        topmost_of(node.children@) is Some ==> topmost(node) == topmost_of(node.children@)),
{
}

/// A node is hit itself where the pointer is in its box and on nothing painted inside
/// it. Outside of its box it is never hit itself.
pub proof fn own_box_lies_below(node: HitNode)
    requires
        topmost_of(node.children@) is None,
    ensures
        topmost(node) == (if node.in_box { Some(node.id) } else { None }),
{
}

/// Of nodes painted one after another, the last one that the pointer hits is hit.
pub proof fn last_painted_is_hit(nodes: Seq<HitNode>, at: int)
    requires
        0 <= at < nodes.len(),
        topmost(nodes[at]) is Some,
        forall|i: int| at < i < nodes.len() ==> topmost(#[trigger] nodes[i]) is None,
    ensures
        topmost_of(nodes) == topmost(nodes[at]),
    decreases nodes.len(),
{
    let last = nodes.len() - 1;
    if at < last {
        let rest = nodes.subrange(0, last);
        assert forall|i: int| at < i < rest.len() implies topmost(#[trigger] rest[i]) is None by {
            assert(rest[i] == nodes[i]);
        }
        last_painted_is_hit(rest, at);
        assert(topmost(nodes[last]) is None);
    }
}

} // verus!
