//! Document trees.

use crate::text::same_text;
use vstd::prelude::*;

verus! {

/// What the rewriter tells apart among the kinds of a document node.
#[derive(Clone, Copy, Debug, PartialEq, Eq, Structural, Hash)]
pub enum NodeKind {
    /// A whole document.
    Markup,
    /// The contents of a code block.
    Code,
    /// An import statement.
    ModuleImport,
    /// A quoted string literal.
    Str,
    /// Any other expression.
    Expression,
    /// Anything else: keywords, punctuation, white space, comments.
    Other,
}

impl NodeKind {
    /// An import statement, a string literal or another expression.
    pub open spec fn is_expression(self) -> bool {
        self is ModuleImport || self is Str || self is Expression
    }

    /// The kind of a tree that can be converted as a whole: a document or the
    /// contents of a code block.
    pub open spec fn is_root(self) -> bool {
        self is Markup || self is Code
    }

    #[verifier::when_used_as_spec(is_expression)]
    pub fn holds_expression(self) -> (r: bool)
        ensures
            r == self.is_expression(),
    {
        match self {
            NodeKind::ModuleImport | NodeKind::Str | NodeKind::Expression => true,
            _ => false,
        }
    }

    #[verifier::when_used_as_spec(is_root)]
    pub fn holds_root(self) -> (r: bool)
        ensures
            r == self.is_root(),
    {
        match self {
            NodeKind::Markup | NodeKind::Code => true,
            _ => false,
        }
    }
}

/// The mathematical value of a document node.
pub enum Tree {
    Leaf { kind: NodeKind, text: Seq<char> },
    Inner { kind: NodeKind, children: Seq<Tree> },
}

impl Tree {
    pub open spec fn kind(self) -> NodeKind {
        match self {
            Tree::Leaf { kind, .. } => kind,
            Tree::Inner { kind, .. } => kind,
        }
    }

    pub open spec fn children(self) -> Seq<Tree> {
        match self {
            Tree::Leaf { .. } => Seq::empty(),
            Tree::Inner { children, .. } => children,
        }
    }

    /// The text of a leaf; empty for an inner node.
    pub open spec fn payload(self) -> Seq<char> {
        match self {
            Tree::Leaf { text, .. } => text,
            Tree::Inner { .. } => Seq::empty(),
        }
    }

    /// The text that the node stands for: a leaf's own text, an inner node's
    /// children's texts one after another.
    pub open spec fn text(self) -> Seq<char>
        decreases self,
    {
        match self {
            Tree::Leaf { text, .. } => text,
            Tree::Inner { children, .. } => Self::concat(children),
        }
    }

    pub open spec fn concat(nodes: Seq<Tree>) -> Seq<char>
        decreases nodes,
    {
        if nodes.len() == 0 {
            Seq::empty()
        } else {
            Self::concat(nodes.drop_last()) + nodes.last().text()
        }
    }
}

/// A node of a document tree: a leaf with its text, or an inner node with its
/// children in order.
#[derive(Debug, PartialEq, Eq)]
pub enum DocumentNode {
    Leaf { kind: NodeKind, text: String },
    Inner { kind: NodeKind, children: Vec<DocumentNode> },
}

impl View for DocumentNode {
    type V = Tree;

    open spec fn view(&self) -> Tree
        decreases self,
    {
        match self {
            DocumentNode::Leaf { kind, text } => Tree::Leaf { kind: *kind, text: text@ },
            DocumentNode::Inner { kind, children } => Tree::Inner {
                kind: *kind,
                children: Seq::new(
                    children@.len(),
                    |i: int|
                        if 0 <= i < children@.len() {
                            children@[i].view()
                        } else {
                            Tree::Leaf { kind: NodeKind::Other, text: Seq::empty() }
                        },
                ),
            },
        }
    }
}

impl DocumentNode {
    /// A leaf of kind `kind` with the text `text`.
    pub fn leaf(kind: NodeKind, text: &str) -> (r: DocumentNode)
        ensures
            r@ == (Tree::Leaf { kind, text: text@ }),
    {
        DocumentNode::Leaf { kind, text: String::from_str(text) }
    }

    /// An inner node of kind `kind` with the children `children`.
    pub fn inner(kind: NodeKind, children: Vec<DocumentNode>) -> (r: DocumentNode)
        ensures
            r@.kind() == kind,
            r@ is Inner,
            r@.children().len() == children@.len(),
            forall|i: int| 0 <= i < children@.len() ==> r@.children()[i] == children@[i]@,
    {
        DocumentNode::Inner { kind, children }
    }

    pub fn kind(&self) -> (k: NodeKind)
        ensures
            k == self@.kind(),
    {
        match self {
            DocumentNode::Leaf { kind, .. } => *kind,
            DocumentNode::Inner { kind, .. } => *kind,
        }
    }

    /// The number of children; none for a leaf.
    pub fn len(&self) -> (n: usize)
        ensures
            n == self@.children().len(),
    {
        match self {
            DocumentNode::Leaf { .. } => 0,
            DocumentNode::Inner { children, .. } => children.len(),
        }
    }

    /// The text of a leaf; empty for an inner node.
    pub fn leaf_text(&self) -> (r: &str)
        ensures
            r@ == self@.payload(),
    {
        match self {
            DocumentNode::Leaf { text, .. } => text.as_str(),
            DocumentNode::Inner { .. } => {
                proof {
                    reveal_strlit("");
                    assert(""@ =~= Seq::<char>::empty());
                }
                ""
            },
        }
    }

    /// Appends the text that the node stands for to `out`.
    pub fn write_text(&self, out: &mut String)
        ensures
            final(out)@ == old(out)@ + self@.text(),
        decreases self,
    {
        match self {
            DocumentNode::Leaf { text, .. } => {
                out.append(text.as_str());
            },
            DocumentNode::Inner { children, .. } => {
                let mut i: usize = 0;
                proof {
                    assert(self@.children().take(0) =~= Seq::<Tree>::empty());
                    assert(old(out)@ + Seq::<char>::empty() =~= old(out)@);
                }
                while i < children.len()
                    invariant
                        self is Inner,
                        self->children == children,
                        i <= children.len(),
                        out@ == old(out)@ + Tree::concat(self@.children().take(i as int)),
                    decreases children.len() - i,
                {
                    assert(decreases_to!(self => self->children));
                    assert(decreases_to!(self->children => self->children[i as int]));
                    let ghost before = out@;
                    children[i].write_text(out);
                    proof {
                        let seen = self@.children().take(i + 1);
                        assert(seen.drop_last() =~= self@.children().take(i as int));
                        assert(seen.last() == children@[i as int]@);
                        assert(out@ =~= old(out)@ + Tree::concat(seen));
                    }
                    i += 1;
                }
                assert(self@.children().take(children.len() as int) =~= self@.children());
            },
        }
    }

    /// The text that the node stands for.
    pub fn into_text(&self) -> (r: String)
        ensures
            r@ == self@.text(),
    {
        let mut out = String::new();
        self.write_text(&mut out);
        assert(Seq::<char>::empty() + self@.text() =~= self@.text());
        out
    }

    /// Whether two nodes are the same tree.
    pub fn same_as(&self, other: &DocumentNode) -> (r: bool)
        ensures
            r == (self@ == other@),
        decreases self,
    {
        match (self, other) {
            (
                DocumentNode::Leaf { kind: k1, text: t1 },
                DocumentNode::Leaf { kind: k2, text: t2 },
            ) => {
                *k1 == *k2 && same_text(t1.as_str(), t2.as_str())
            },
            (
                DocumentNode::Inner { kind: k1, children: c1 },
                DocumentNode::Inner { kind: k2, children: c2 },
            ) => {
                if *k1 != *k2 || c1.len() != c2.len() {
                    assert(self@.kind() != other@.kind() || self@.children().len()
                        != other@.children().len());
                    return false;
                }
                let mut i: usize = 0;
                while i < c1.len()
                    invariant
                        self is Inner,
                        other is Inner,
                        self->children == c1,
                        other->children == c2,
                        c1.len() == c2.len(),
                        i <= c1.len(),
                        forall|j: int| 0 <= j < i ==> c1@[j]@ == c2@[j]@,
                    decreases c1.len() - i,
                {
                    assert(decreases_to!(self => self->children));
                    assert(decreases_to!(self->children => self->children[i as int]));
                    if !c1[i].same_as(&c2[i]) {
                        assert(self@.children()[i as int] != other@.children()[i as int]);
                        return false;
                    }
                    i += 1;
                }
                assert(self@.children() =~= other@.children());
                true
            },
            _ => false,
        }
    }

    /// A structural copy.
    pub fn duplicate(&self) -> (r: DocumentNode)
        ensures
            r@ == self@,
        decreases self,
    {
        match self {
            DocumentNode::Leaf { kind, text } => DocumentNode::Leaf {
                kind: *kind,
                text: text.clone(),
            },
            DocumentNode::Inner { kind, children } => {
                let mut copies: Vec<DocumentNode> = Vec::new();
                let mut i: usize = 0;
                while i < children.len()
                    invariant
                        self is Inner,
                        self->children == children,
                        i <= children.len(),
                        copies.len() == i,
                        forall|j: int| 0 <= j < i ==> copies@[j]@ == children@[j]@,
                    decreases children.len() - i,
                {
                    assert(decreases_to!(self => self->children));
                    assert(decreases_to!(self->children => self->children[i as int]));
                    let c = children[i].duplicate();
                    copies.push(c);
                    i += 1;
                }
                let r = DocumentNode::Inner { kind: *kind, children: copies };
                assert(r@.children() =~= self@.children());
                r
            },
        }
    }
}

} // verus!
