//! The document tree of the prose pipeline: a generic tree of named
//! parents, text-carrying values and bare tokens, with the one rewrite the
//! pipeline applies -- appending a marker to the text of every value node.
//! The recognizer that produces these trees from prose is external.

use vstd::prelude::*;

verus! {

/// A named inner node with ordered children.
#[derive(Debug, PartialEq, Eq)]
pub struct Parent {
    pub name: String,
    pub children: Vec<Node>,
}

/// A named leaf carrying a piece of text.
#[derive(Debug, PartialEq, Eq)]
pub struct Value {
    pub name: String,
    pub value: String,
}

/// A named leaf carrying no text.
#[derive(Debug, PartialEq, Eq)]
pub struct Token {
    pub name: String,
}

/// One node of a prose document tree.
#[derive(Debug, PartialEq, Eq)]
pub enum Node {
    Parent(Parent),
    Value(Value),
    Token(Token),
    Empty,
}

/// Model of a prose tree node.
#[verifier::ext_equal]
pub enum SpecProseNode {
    Parent { name: Seq<char>, children: Seq<SpecProseNode> },
    Value { name: Seq<char>, value: Seq<char> },
    Token { name: Seq<char> },
    Empty,
}

/// The model of a prose tree node.
pub open spec fn view_prose(n: Node) -> SpecProseNode
    decreases n,
{
    match n {
        Node::Parent(p) => SpecProseNode::Parent {
            name: p.name@,
            children: view_prose_seq(p.children@),
        },
        Node::Value(v) => SpecProseNode::Value { name: v.name@, value: v.value@ },
        Node::Token(t) => SpecProseNode::Token { name: t.name@ },
        Node::Empty => SpecProseNode::Empty,
    }
}

/// The models of a sequence of prose tree nodes, in order.
pub open spec fn view_prose_seq(s: Seq<Node>) -> Seq<SpecProseNode>
    decreases s,
{
    if s.len() == 0 {
        Seq::empty()
    } else {
        seq![view_prose(s[0])] + view_prose_seq(s.subrange(1, s.len() as int))
    }
}

impl View for Node {
    type V = SpecProseNode;

    open spec fn view(&self) -> SpecProseNode {
        view_prose(*self)
    }
}

/// The item-by-item reading of `view_prose_seq`.
pub proof fn lemma_view_prose_seq(s: Seq<Node>)
    ensures
        view_prose_seq(s).len() == s.len(),
        forall|i: int| 0 <= i < s.len() ==> view_prose_seq(s)[i] == view_prose(s[i]),
    decreases s.len(),
{
    if s.len() > 0 {
        lemma_view_prose_seq(s.subrange(1, s.len() as int));
        assert forall|i: int| 0 <= i < s.len() implies view_prose_seq(s)[i] == view_prose(
            s[i],
        ) by {
            if i > 0 {
                assert(s.subrange(1, s.len() as int)[i - 1] == s[i]);
            }
        }
    }
}

/// The tree with the marker appended to every value node's text: parents
/// keep their names and their children's order, tokens and empty nodes are
/// unchanged.
pub open spec fn spec_transform_text(n: SpecProseNode, append: Seq<char>) -> SpecProseNode
    decreases n, 1int,
{
    match n {
        SpecProseNode::Parent { name, children } => SpecProseNode::Parent {
            name,
            children: spec_transform_children(children, append),
        },
        SpecProseNode::Value { name, value } => SpecProseNode::Value {
            name,
            value: value + append,
        },
        SpecProseNode::Token { name } => SpecProseNode::Token { name },
        SpecProseNode::Empty => SpecProseNode::Empty,
    }
}

/// The children of a parent, each transformed, in order.
pub open spec fn spec_transform_children(s: Seq<SpecProseNode>, append: Seq<char>) -> Seq<
    SpecProseNode,
>
    decreases s, 0int,
{
    if s.len() == 0 {
        Seq::empty()
    } else {
        spec_transform_children(s.drop_last(), append).push(
            spec_transform_text(s.last(), append),
        )
    }
}

/// Appends the marker to the text of every value node of the tree. The
/// input tree is unchanged; the result is a new tree of the same shape.
#[verifier::loop_isolation(false)]
pub fn transform_text(node: &Node, append_text: &str) -> (r: Node)
    ensures
        r@ == spec_transform_text(node@, append_text@),
    decreases node,
{
    match node {
        Node::Parent(parent) => {
            let mut children: Vec<Node> = Vec::new();
            proof {
                lemma_view_prose_seq(parent.children@);
                lemma_view_prose_seq(children@);
                assert(view_prose_seq(children@) =~= Seq::<SpecProseNode>::empty());
                assert(view_prose_seq(parent.children@).subrange(0, 0) =~= Seq::<
                    SpecProseNode,
                >::empty());
            }
            let ghost kids = view_prose_seq(parent.children@);
            let mut i: usize = 0;
            while i < parent.children.len()
                invariant
                    i <= parent.children.len(),
                    kids == view_prose_seq(parent.children@),
                    kids.len() == parent.children@.len(),
                    view_prose_seq(children@) == spec_transform_children(
                        kids.subrange(0, i as int),
                        append_text@,
                    ),
                decreases parent.children.len() - i,
            {
                proof {
                    lemma_view_prose_seq(parent.children@);
                    assert(kids.subrange(0, i as int + 1).drop_last() =~= kids.subrange(
                        0,
                        i as int,
                    ));
                    assert(kids.subrange(0, i as int + 1).last() == kids[i as int]);
                }
                let ghost pre = view_prose_seq(children@);
                proof {
                    lemma_view_prose_seq(children@);
                }
                let ghost before = children@;
                let child = transform_text(&parent.children[i], append_text);
                let ghost childv = child@;
                children.push(child);
                proof {
                    lemma_view_prose_seq(children@);
                    assert forall|k: int| 0 <= k < before.len() implies view_prose_seq(
                        children@,
                    )[k] == pre[k] by {
                        assert(children@[k] == before[k]);
                    }
                    assert(view_prose_seq(children@) =~= pre.push(childv));
                }
                i += 1;
            }
            proof {
                assert(kids.subrange(0, kids.len() as int) =~= kids);
            }
            Node::Parent(Parent { name: parent.name.clone(), children })
        },
        Node::Value(v) => {
            let mut value = v.value.clone();
            value.append(append_text);
            Node::Value(Value { name: v.name.clone(), value })
        },
        Node::Token(t) => Node::Token(Token { name: t.name.clone() }),
        Node::Empty => Node::Empty,
    }
}

} // verus!
