//! S-expressions, the notation of KiCad's files.

pub mod laws;
pub mod layout_laws;
pub mod parser;
pub mod reading_laws;
pub mod writer;

use vstd::prelude::*;

verus! {

/// A node of an S-expression document.
#[derive(Debug, PartialEq, Eq)]
pub enum SexpNode {
    /// A bare word: a tag, a number, a chunk of an embedded payload.
    Atom(String),
    /// A quoted string, held without its quotes and escapes.
    Str(String),
    /// A parenthesised list.
    List(Vec<SexpNode>),
}

/// What a [`SexpNode`] denotes.
pub enum Sexp {
    Atom(Seq<char>),
    Str(Seq<char>),
    List(Seq<Sexp>),
}

impl SexpNode {
    /// What the node denotes.
    pub open spec fn model(self) -> Sexp
        decreases self,
    {
        match self {
            SexpNode::Atom(s) => Sexp::Atom(s@),
            SexpNode::Str(s) => Sexp::Str(s@),
            SexpNode::List(children) => Sexp::List(
                Seq::new(
                    children@.len(),
                    |i: int|
                        if 0 <= i < children@.len() {
                            children@[i].model()
                        } else {
                            arbitrary()
                        },
                ),
            ),
        }
    }

    /// Whether the node is a list.
    pub fn is_list(&self) -> (res: bool)
        ensures
            res == (self@ is List),
    {
        match self {
            SexpNode::List(_) => true,
            _ => false,
        }
    }
}

/// What a sequence of nodes denotes.
pub open spec fn models(nodes: Seq<SexpNode>) -> Seq<Sexp> {
    Seq::new(nodes.len(), |i: int| nodes[i]@)
}

/// A list denotes the list of what its children denote.
pub proof fn lemma_list_view(children: Vec<SexpNode>)
    ensures
        SexpNode::List(children)@ == Sexp::List(models(children@)),
{
    let node = SexpNode::List(children);
    assert(node.model()->List_0 =~= models(children@));
}

impl View for SexpNode {
    type V = Sexp;

    open spec fn view(&self) -> Sexp {
        self.model()
    }
}

} // verus!
