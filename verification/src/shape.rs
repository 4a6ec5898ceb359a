//! A converted tree differs from the tree it was made from in string
//! literals only.

use crate::literal::{is_quoted, quoted};
use crate::node::Tree;
use crate::rewrite::{
    import_literal, lemma_rewritten_children, plan_import, rewrite, rewrite_children, Settings,
    Swap,
};
use vstd::prelude::*;

verus! {

/// `new` is `old` but for the texts of string literals: the two trees have
/// the same nodes of the same kinds in the same places, and every leaf that
/// is no string literal has the same text in both.
pub open spec fn same_but_literals(old: Tree, new: Tree) -> bool
    decreases old,
{
    match (old, new) {
        (Tree::Leaf { kind: k1, text: t1 }, Tree::Leaf { kind: k2, text: t2 }) => k1 == k2 && (t1
            == t2 || k1 is Str),
        (Tree::Inner { kind: k1, children: c1 }, Tree::Inner { kind: k2, children: c2 }) => {
            &&& k1 == k2
            &&& c1.len() == c2.len()
            &&& forall|i: int| 0 <= i < c1.len() ==> same_but_literals(c1[i], #[trigger] c2[i])
        },
        _ => false,
    }
}

/// A tree is itself but for its string literals.
pub proof fn lemma_same_as_itself(node: Tree)
    ensures
        same_but_literals(node, node),
    decreases node,
{
    match node {
        Tree::Leaf { .. } => {},
        Tree::Inner { children, .. } => {
            assert forall|i: int| 0 <= i < children.len() implies same_but_literals(
                children[i],
                #[trigger] children[i],
            ) by {
                lemma_same_as_itself(children[i]);
            }
        },
    }
}

/// Conversion changes string literals only: the converted tree is the tree
/// it was made from but for the texts of string literals.
pub proof fn lemma_rewrite_changes_literals_only(node: Tree, settings: Settings)
    requires
        rewrite(node, settings) is Ok,
    ensures
        same_but_literals(node, rewrite(node, settings)->Ok_0.value),
    decreases node,
{
    let after = rewrite(node, settings)->Ok_0.value;
    let n = node.children().len();
    if after == node {
        lemma_same_as_itself(node);
    } else {
        let swap: Option<Swap> = if node.kind() is ModuleImport {
            let target = plan_import(node, settings)->Ok_0.target->0;
            Some(Swap { from: import_literal(node)->0, to: quoted(target.text()) })
        } else {
            None
        };
        assert(rewrite_children(node, n, swap, settings) is Ok);
        lemma_rewritten_children(node, n, swap, settings);
        let rest = rewrite_children(node, n, swap, settings)->Ok_0;
        assert(after.children() == rest.value);
        assert forall|i: int| 0 <= i < n implies same_but_literals(
            node.children()[i],
            #[trigger] rest.value[i],
        ) by {
            let child = node.children()[i];
            let converted = rest.value[i];
            if swap is Some && swap->0.hits(child) {
                assert(is_quoted(swap->0.from));
                assert(child is Leaf);
            } else {
                lemma_rewrite_changes_literals_only(child, settings);
            }
        }
    }
}

} // verus!
