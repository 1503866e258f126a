//! The element tree, as an arena of nodes addressed by their indices.

use vstd::prelude::*;
use crate::input::FilterInputView;
use crate::bounds::{PrimitiveView, primitive_attributes};
use crate::merge::{FeMerge, FeMergeNode, merge_node_attributes};
use crate::property_bag::PropertyBag;

verus! {

/// What a node of the tree is.
pub enum NodeData {
    /// An `feMerge` filter primitive.
    FeMerge(FeMerge),
    /// An `feMergeNode` element.
    FeMergeNode(FeMergeNode),
    /// Anything else: another element, or character data.
    Other,
}

/// The kinds of element that the filter core tells apart.
#[derive(Clone, Copy, Debug, PartialEq, Eq, Structural)]
pub enum ElementKind {
    FeMerge,
    FeMergeNode,
    Other,
}

impl NodeData {
    /// An element of the given kind, set up from its attributes, and
    /// whether it is in error: an element is in error where one of its
    /// attributes is.  It then keeps what the attributes before that one
    /// made of it.
    pub fn from_attributes(kind: ElementKind, pbag: &PropertyBag) -> (r: (NodeData, bool))
        ensures
            match r.0 {
                NodeData::FeMerge(merge) => kind == ElementKind::FeMerge && merge.primitive()@
                    == primitive_attributes(PrimitiveView::initial(), pbag@).0 && r.1
                    == primitive_attributes(PrimitiveView::initial(), pbag@).1.is_some(),
                NodeData::FeMergeNode(node) => kind == ElementKind::FeMergeNode && node.input()
                    == merge_node_attributes(None, pbag@).0 && r.1 == !merge_node_attributes(
                    None,
                    pbag@,
                ).1,
                NodeData::Other => kind == ElementKind::Other && !r.1,
            },
    {
        match kind {
            ElementKind::FeMerge => {
                let mut merge = FeMerge::default();
                let in_error = merge.set_atts(pbag).is_err();
                (NodeData::FeMerge(merge), in_error)
            },
            ElementKind::FeMergeNode => {
                let mut node = FeMergeNode::default();
                let in_error = node.set_atts(pbag).is_err();
                (NodeData::FeMergeNode(node), in_error)
            },
            ElementKind::Other => (NodeData::Other, false),
        }
    }
}

/// A node of the tree.
pub struct Node {
    pub data: NodeData,
    /// The element could not be set up from its attributes.
    pub in_error: bool,
    /// The indices of the children, in document order.
    pub children: Vec<usize>,
}

/// An `feMergeNode` child of a merge: the input it refers to, and whether
/// the element is in error.
pub struct MergeChild {
    pub node: FeMergeNode,
    pub in_error: bool,
}

/// The mathematical content of a `MergeChild`.
pub ghost struct MergeChildView {
    pub input: Option<FilterInputView>,
    pub in_error: bool,
}

impl View for MergeChild {
    type V = MergeChildView;

    open spec fn view(&self) -> MergeChildView {
        MergeChildView { input: self.node.input(), in_error: self.in_error }
    }
}

/// The views of a list of merge children, one by one.
pub open spec fn merge_children_view(children: Seq<MergeChild>) -> Seq<MergeChildView> {
    Seq::new(children.len(), |i: int| children[i]@)
}

/// Those of `children` that are `feMergeNode` elements of `nodes`, in
/// the order of `children`.  An index that names no node is passed over.
pub open spec fn merge_children(nodes: Seq<Node>, children: Seq<usize>) -> Seq<MergeChildView>
    decreases children.len(),
{
    if children.len() == 0 {
        Seq::empty()
    } else {
        let before = merge_children(nodes, children.drop_last());
        let c = children.last() as int;
        if c < nodes.len() {
            match nodes[c].data {
                NodeData::FeMergeNode(n) => before.push(
                    MergeChildView { input: n.input(), in_error: nodes[c].in_error },
                ),
                _ => before,
            }
        } else {
            before
        }
    }
}

/// The nodes of a document.  A node is known by its index, which never
/// changes.
pub struct NodeArena {
    nodes: Vec<Node>,
}

impl View for NodeArena {
    type V = Seq<Node>;

    closed spec fn view(&self) -> Seq<Node> {
        self.nodes@
    }
}

impl NodeArena {
    /// An arena without nodes.
    pub fn new() -> (arena: NodeArena)
        ensures
            arena@.len() == 0,
    {
        NodeArena { nodes: Vec::new() }
    }

    /// How many nodes there are.
    pub fn len(&self) -> (n: usize)
        ensures
            n == self@.len(),
    {
        self.nodes.len()
    }

    /// Adds a node with the given children and returns its index.
    pub fn add(&mut self, data: NodeData, in_error: bool, children: Vec<usize>) -> (id: usize)
        ensures
            id == old(self)@.len(),
            final(self)@ == old(self)@.push(Node { data, in_error, children }),
    {
        let id = self.nodes.len();
        self.nodes.push(Node { data, in_error, children });
        id
    }

    /// The node with the given index, where there is one.
    pub fn get(&self, id: usize) -> (node: Option<&Node>)
        ensures
            match node {
                Some(n) => id < self@.len() && *n == self@[id as int],
                None => id >= self@.len(),
            },
    {
        if id < self.nodes.len() {
            Some(&self.nodes[id])
        } else {
            None
        }
    }

    /// The `feMergeNode` children of `node`, in document order.
    pub fn merge_children(&self, node: &Node) -> (children: Vec<MergeChild>)
        ensures
            merge_children_view(children@) == merge_children(self@, node.children@),
    {
        let mut found: Vec<MergeChild> = Vec::new();
        let mut i: usize = 0;
        assert(node.children@.take(0) =~= Seq::empty());
        assert(merge_children_view(found@) =~= Seq::empty());
        while i < node.children.len()
            invariant
                i <= node.children@.len(),
                merge_children_view(found@) == merge_children(
                    self@,
                    node.children@.take(i as int),
                ),
            decreases node.children@.len() - i,
        {
            let ghost before = merge_children_view(found@);
            proof {
                assert(node.children@.take(i + 1).drop_last() =~= node.children@.take(i as int));
                assert(node.children@.take(i + 1).last() == node.children@[i as int]);
            }
            let c = node.children[i];
            if c < self.nodes.len() {
                match &self.nodes[c].data {
                    NodeData::FeMergeNode(n) => {
                        let child = MergeChild {
                            node: n.duplicate(),
                            in_error: self.nodes[c].in_error,
                        };
                        found.push(child);
                        proof {
                            assert(merge_children_view(found@) =~= before.push(child@));
                        }
                    },
                    _ => {},
                }
            }
            i += 1;
        }
        assert(node.children@.take(i as int) =~= node.children@);
        found
    }
}

} // verus!
