//! The concrete parse tree: a labeled node with an ordered sequence of child
//! nodes and the exact substring of the source it matched. Parse trees are
//! produced by the grammar recognizer and consumed by the AST builder.

use vstd::prelude::*;

use crate::ast::Rule;

verus! {

/// The mathematical model of a parse-tree node.
pub struct SpecNode {
    pub rule: Rule,
    pub children: Seq<SpecNode>,
    pub text: Seq<u8>,
}

impl SpecNode {
    /// A leaf node: a token match with no children.
    pub open spec fn leaf(rule: Rule, text: Seq<u8>) -> SpecNode {
        SpecNode { rule, children: Seq::empty(), text }
    }
}

/// One node of the concrete parse tree.
pub struct ParseNode {
    pub rule: Rule,
    pub children: Vec<ParseNode>,
    pub text: Vec<u8>,
}

/// The models of the nodes of `s` from index `i` on, in order.
pub open spec fn deep_view_children(s: Seq<ParseNode>, i: int) -> Seq<SpecNode>
    decreases s, s.len() - i,
{
    if i < 0 || i >= s.len() {
        Seq::empty()
    } else {
        Seq::empty().push(s[i].deep_view()) + deep_view_children(s, i + 1)
    }
}

/// `deep_view_children(s, i)` holds exactly the models of `s[i..]`, in order.
pub proof fn lemma_deep_view_children(s: Seq<ParseNode>, i: int)
    requires
        0 <= i <= s.len(),
    ensures
        deep_view_children(s, i).len() == s.len() - i,
        forall|k: int|
            i <= k < s.len() ==> deep_view_children(s, i)[k - i] == s[k].deep_view(),
    decreases s.len() - i,
{
    if i < s.len() {
        lemma_deep_view_children(s, i + 1);
    }
}

impl ParseNode {
    /// The model of this node: the same tree over sequences.
    pub open spec fn deep_view(self) -> SpecNode
        decreases self, 0int,
    {
        proof {
            assert(decreases_to!(self => self.children));
            assert(decreases_to!(self.children => self.children@));
        }
        SpecNode {
            rule: self.rule,
            children: deep_view_children(self.children@, 0),
            text: self.text@,
        }
    }

    /// The grammar category this node matched.
    pub fn as_rule(&self) -> (r: Rule)
        ensures
            r == self.deep_view().rule,
    {
        self.rule
    }
}

} // verus!
