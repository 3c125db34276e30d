//! A generic syntax-tree node: a token, a kind, and children.
use vstd::prelude::*;
use crate::token::{SpecTokStruct, SpecToken, TokStruct, Token};

verus! {

/// What a [`Node`] stands for.
#[derive(Debug, Clone, Copy, PartialEq, Eq, Structural)]
pub enum NodeType {
    Block,
    Assignment,
    AExpression,
    BExpression,
    FnCall,
    FnDef,
    FnArg,
    FnArgs,
    /// The kind of a node that was given none.
    Empty,
    Cond,
    Program,
    Return,
    Var,
    Number,
    Bool,
}

/// A node of a generic syntax tree, built up by chaining its methods.
#[derive(Debug)]
pub struct Node {
    val: TokStruct,
    children: Vec<Node>,
    n_type: NodeType,
}

/// The mathematical value of a [`Node`].
pub struct SpecNode {
    pub val: SpecTokStruct,
    pub children: Seq<SpecNode>,
    pub n_type: NodeType,
}

/// The node that `Node::new` makes.
pub open spec fn blank_node() -> SpecNode {
    SpecNode {
        val: SpecTokStruct { val: SpecToken::End, pos: 0 },
        children: Seq::empty(),
        n_type: NodeType::Empty,
    }
}

/// The value of a node: the same tree, of values.
pub closed spec fn node_view(n: Node) -> SpecNode
    decreases n,
{
    SpecNode {
        val: n.val@,
        children: Seq::new(
            n.children.len() as nat,
            |i: int|
                if 0 <= i < n.children.len() {
                    node_view(n.children[i])
                } else {
                    blank_node()
                },
        ),
        n_type: n.n_type,
    }
}

impl View for Node {
    type V = SpecNode;

    open spec fn view(&self) -> SpecNode {
        node_view(*self)
    }
}

/// The values of a vector of nodes.
pub open spec fn nodes_view(nodes: Seq<Node>) -> Seq<SpecNode> {
    Seq::new(nodes.len(), |i: int| nodes[i]@)
}

/// What a walk in post-order meets: of every node its token and its kind,
/// the children of a node from first to last before the node itself.
pub open spec fn postorder(n: SpecNode) -> Seq<(SpecTokStruct, NodeType)>
    decreases n, n.children.len() + 1,
{
    postorder_from(n, 0).push((n.val, n.n_type))
}

/// What a walk in post-order meets below the children of `n` from the
/// `i`th on.
pub open spec fn postorder_from(n: SpecNode, i: nat) -> Seq<(SpecTokStruct, NodeType)>
    decreases n, n.children.len() - i,
{
    if i >= n.children.len() {
        Seq::empty()
    } else {
        postorder(n.children[i as int]) + postorder_from(n, i + 1)
    }
}

/// The values of what a walk returns.
pub open spec fn visits_view(visits: Seq<(TokStruct, NodeType)>) -> Seq<(SpecTokStruct, NodeType)> {
    Seq::new(visits.len(), |i: int| (visits[i].0@, visits[i].1))
}

impl Node {
    /// A node without children or kind, on the end marker at offset zero.
    pub fn new() -> (n: Node)
        ensures
            n@ == blank_node(),
    {
        let n = Node { val: TokStruct::default(), children: Vec::new(), n_type: NodeType::Empty };
        assert(n@.children =~= Seq::<SpecNode>::empty());
        n
    }

    /// This node with `n` as its last child.
    pub fn add_child(self, n: Node) -> (node: Node)
        ensures
            node@ == (SpecNode { children: self@.children.push(n@), ..self@ }),
    {
        let mut node = self;
        node.children.push(n);
        assert(node@.children =~= self@.children.push(n@));
        node
    }

    /// This node on the token `v`.
    pub fn val(self, v: TokStruct) -> (node: Node)
        ensures
            node@ == (SpecNode { val: v@, ..self@ }),
    {
        let mut node = self;
        node.val = v;
        assert(node@.children =~= self@.children);
        node
    }

    /// This node with the children `c` in place of its own.
    pub fn children(self, c: Vec<Node>) -> (node: Node)
        ensures
            node@ == (SpecNode { children: nodes_view(c@), ..self@ }),
    {
        let mut node = self;
        node.children = c;
        assert(node@.children =~= nodes_view(c@));
        node
    }

    /// This node with the nodes of `c` after its own children. They are
    /// moved: `c` is left empty.
    pub fn add_children(self, c: &mut Vec<Node>) -> (node: Node)
        ensures
            node@ == (SpecNode { children: self@.children + nodes_view(old(c)@), ..self@ }),
            final(c)@.len() == 0,
    {
        let mut node = self;
        let ghost added = nodes_view(c@);
        node.children.append(c);
        assert(node@.children =~= self@.children + added);
        node
    }

    /// This node with the kind `t`.
    pub fn type_(self, t: NodeType) -> (node: Node)
        ensures
            node@ == (SpecNode { n_type: t, ..self@ }),
    {
        let mut node = self;
        node.n_type = t;
        assert(node@.children =~= self@.children);
        node
    }

    /// A copy of the token of this node.
    pub fn get_val(&self) -> (val: Token)
        ensures
            val@ == self@.val.val,
    {
        self.val.get_val()
    }

    /// The children of this node, in order.
    pub fn get_children(&self) -> (children: &Vec<Node>)
        ensures
            nodes_view(children@) == self@.children,
    {
        assert(nodes_view(self.children@) =~= self@.children);
        &self.children
    }

    /// The offset of the token of this node.
    pub fn get_pos(&self) -> (pos: usize)
        ensures
            pos == self@.val.pos,
    {
        self.val.get_pos()
    }

    /// The kind of this node.
    pub fn get_type(&self) -> (kind: NodeType)
        ensures
            kind == self@.n_type,
    {
        self.n_type
    }

    /// Walks the tree below `n` in post-order and returns, of every node met,
    /// its token and its kind.
    pub fn po_(n: &Node) -> (visits: Vec<(TokStruct, NodeType)>)
        ensures
            visits_view(visits@) == postorder(n@),
        decreases n,
    {
        let mut visits: Vec<(TokStruct, NodeType)> = Vec::new();
        let mut i: usize = 0;
        assert(visits_view(visits@) =~= Seq::<(SpecTokStruct, NodeType)>::empty());
        while i < n.children.len()
            invariant
                i <= n.children.len(),
                postorder_from(n@, 0) == visits_view(visits@) + postorder_from(n@, i as nat),
            decreases n.children.len() - i,
        {
            let ghost before = visits_view(visits@);
            let mut below = Node::po_(&n.children[i]);
            let ghost under = visits_view(below@);
            visits.append(&mut below);
            proof {
                assert(visits_view(visits@) =~= before + under);
                assert(before + (under + postorder_from(n@, (i + 1) as nat)) =~= visits_view(
                    visits@,
                ) + postorder_from(n@, (i + 1) as nat));
            }
            i += 1;
        }
        let ghost before = visits_view(visits@);
        visits.push((n.val.clone(), n.n_type));
        proof {
            assert(before + Seq::<(SpecTokStruct, NodeType)>::empty() =~= before);
            assert(visits_view(visits@) =~= before.push((n@.val, n@.n_type)));
        }
        visits
    }
}

impl Node {
    /// A copy of this node and of all below it.
    pub fn duplicate(&self) -> (copy: Node)
        ensures
            copy@ == self@,
        decreases self,
    {
        let mut children: Vec<Node> = Vec::new();
        let mut i: usize = 0;
        while i < self.children.len()
            invariant
                i <= self.children.len(),
                children.len() == i,
                forall|j: int| 0 <= j < i ==> children[j]@ == self.children[j]@,
            decreases self.children.len() - i,
        {
            children.push(self.children[i].duplicate());
            i += 1;
        }
        let copy = Node { val: self.val.clone(), children, n_type: self.n_type };
        assert(copy@.children =~= self@.children);
        copy
    }
}

impl Clone for Node {
    fn clone(&self) -> (copy: Node)
        ensures
            copy@ == self@,
    {
        self.duplicate()
    }
}

} // verus!
