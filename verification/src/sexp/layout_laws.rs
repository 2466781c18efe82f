//! What the writer puts where, construct by construct.
//!
//! The laws here name tags, characters and depths as they stand in a file.

use super::writer::{
    children_text, closing, document, escaped, escaped_char, lists_before, separator, text,
};
use super::{models, Sexp, SexpNode};
use vstd::prelude::*;

verus! {

proof fn lemma_tags_differ()
    ensures
        "pts"@ != "data"@,
        "pts"@.len() == 3,
        "data"@.len() == 4,
{
    reveal_strlit("pts");
    reveal_strlit("data");
    assert("pts"@.len() != "data"@.len());
}

/// A node denotes what it holds, all of it and in its order.
pub proof fn a_node_denotes_what_it_holds(word: String, children: Vec<SexpNode>, k: int)
    requires
        0 <= k < children@.len(),
    ensures
        SexpNode::Atom(word)@ == Sexp::Atom(word@),
        SexpNode::Str(word)@ == Sexp::Str(word@),
        SexpNode::List(children)@ is List,
        SexpNode::List(children)@->List_0.len() == children@.len(),
        SexpNode::List(children)@->List_0[k] == children@[k]@,
        models(children@).len() == children@.len(),
        models(children@)[k] == children@[k]@,
{
    super::lemma_list_view(children);
}

/// An atom is written as it is, and an empty list as a pair of parens, at every depth.
pub proof fn a_word_is_written_as_it_is(word: Seq<char>, depth: nat)
    ensures
        text(Sexp::Atom(word), depth) == word,
        text(Sexp::List(Seq::empty()), depth) == seq!['(', ')'],
{
}

/// A string is written between quotes, character by character: a quote, a backslash,
/// a line feed, a tab and a carriage return each as a backslash and one character,
/// and every other character as itself.
pub proof fn a_string_is_written_character_by_character(
    head: Seq<char>,
    c: char,
    tail: Seq<char>,
    depth: nat,
)
    ensures
        text(Sexp::Str(head), depth) == seq!['"'] + escaped(head) + seq!['"'],
        escaped(Seq::empty()) == Seq::<char>::empty(),
        escaped(head + seq![c] + tail) == escaped(head) + escaped(seq![c]) + escaped(tail),
        escaped(seq!['"']) == seq!['\\', '"'],
        escaped(seq!['\\']) == seq!['\\', '\\'],
        escaped(seq!['\n']) == seq!['\\', 'n'],
        escaped(seq!['\t']) == seq!['\\', 't'],
        escaped(seq!['\r']) == seq!['\\', 'r'],
        c != '"' && c != '\\' && c != '\n' && c != '\t' && c != '\r' ==> escaped(seq![c])
            == seq![c],
{
    lemma_escaped_concat(head, seq![c]);
    lemma_escaped_concat(head + seq![c], tail);
    lemma_escaped_one('"');
    lemma_escaped_one('\\');
    lemma_escaped_one('\n');
    lemma_escaped_one('\t');
    lemma_escaped_one('\r');
    lemma_escaped_one(c);
}

proof fn lemma_escaped_one(c: char)
    ensures
        escaped(seq![c]) == escaped_char(c),
{
    reveal_with_fuel(escaped, 2);
    assert(seq![c].skip(1) =~= Seq::<char>::empty());
    assert(escaped(seq![c]) =~= escaped_char(c));
}

proof fn lemma_escaped_concat(a: Seq<char>, b: Seq<char>)
    ensures
        escaped(a + b) == escaped(a) + escaped(b),
    decreases a.len(),
{
    if a.len() == 0 {
        assert(a + b =~= b);
        assert(escaped(a) + escaped(b) =~= escaped(b));
    } else {
        lemma_escaped_concat(a.skip(1), b);
        assert((a + b).skip(1) =~= a.skip(1) + b);
        assert(escaped(a + b) =~= escaped(a) + escaped(b));
    }
}

/// A document is its node's text at the root and a line feed.
pub proof fn a_document_ends_with_a_line_feed(node: Sexp)
    ensures
        document(node) == text(node, 0) + seq!['\n'],
{
}

/// A list is an opening paren, its children in their order, each behind its gap, and
/// a closing paren behind a gap of its own: nothing is left out and nothing added.
pub proof fn a_list_holds_its_children_in_order(children: Seq<Sexp>, depth: nat)
    requires
        children.len() > 0,
    ensures
        text(Sexp::List(children), depth) == seq!['('] + Seq::new(
            children.len(),
            |k: int| separator(children, depth, k) + text(children[k], depth + 1),
        ).flatten() + closing(children, depth) + seq![')'],
        separator(children, depth, 0) == Seq::<char>::empty(),
{
    let pieces = Seq::new(
        children.len(),
        |k: int| separator(children, depth, k) + text(children[k], depth + 1),
    );
    lemma_children_flatten(children, depth, 0, pieces);
    assert(pieces.skip(0) =~= pieces);
}

proof fn lemma_children_flatten(
    children: Seq<Sexp>,
    depth: nat,
    k: int,
    pieces: Seq<Seq<char>>,
)
    requires
        0 <= k <= children.len(),
        pieces.len() == children.len(),
        forall|i: int|
            0 <= i < children.len() ==> #[trigger] pieces[i] == separator(children, depth, i)
                + text(children[i], depth + 1),
    ensures
        children_text(children, depth, k) == pieces.skip(k).flatten(),
    decreases children.len() - k,
{
    if k < children.len() {
        lemma_children_flatten(children, depth, k + 1, pieces);
        assert(pieces.skip(k).drop_first() =~= pieces.skip(k + 1));
        assert(pieces.skip(k).first() == pieces[k]);
    }
}

/// The root list gives every child behind its tag a line of its own, one tab in, and
/// closes on a line of its own.
pub proof fn the_root_gives_each_child_a_line(children: Seq<Sexp>, k: int)
    requires
        1 <= k < children.len(),
    ensures
        separator(children, 0, k) == seq!['\n', '\t'],
        closing(children, 0) == seq!['\n'],
{
}

/// Below the root, each sub-list of a list starts a line of its own, one tab further
/// in than the list, however many stand before it. The exceptions are the list's tag
/// `pts` and a `data` payload of several chunks.
pub proof fn each_sub_list_starts_a_line(children: Seq<Sexp>, depth: nat, k: int)
    requires
        depth >= 1,
        1 <= k < children.len(),
        children[k] is List,
        children[0] != Sexp::Atom("pts"@),
        !(children[0] == Sexp::Atom("data"@) && children.len() > 2),
    ensures
        separator(children, depth, k) == seq!['\n'] + Seq::new(depth + 1, |i: int| '\t'),
        closing(children, depth) == seq!['\n'] + Seq::new(depth, |i: int| '\t'),
{
    lemma_tags_differ();
}

/// Below the root, a scalar stays on the line of what stands before it, one space
/// behind it, in every list that is no `data` payload of several chunks.
pub proof fn a_scalar_stays_on_its_line(children: Seq<Sexp>, depth: nat, k: int)
    requires
        depth >= 1,
        1 <= k < children.len(),
        !(children[k] is List),
        !(children[0] == Sexp::Atom("data"@) && children.len() > 2),
    ensures
        separator(children, depth, k) == seq![' '],
{
    lemma_tags_differ();
}

/// Below the root, a list without sub-lists closes on its line, unless it is a `data`
/// payload of several chunks.
pub proof fn a_list_of_scalars_closes_on_its_line(children: Seq<Sexp>, depth: nat)
    requires
        depth >= 1,
        children.len() > 0,
        forall|i: int| 1 <= i < children.len() ==> !(#[trigger] children[i] is List),
        !(children[0] == Sexp::Atom("data"@) && children.len() > 2),
    ensures
        closing(children, depth) == Seq::<char>::empty(),
{
    lemma_tags_differ();
}

/// Below the root, a sub-list of `pts` starts a line where the number of sub-lists
/// before it is a multiple of six, and is one space behind the one before it where it
/// is not. The list closes on a line of its own.
pub proof fn points_share_lines_of_six(children: Seq<Sexp>, depth: nat, k: int)
    requires
        depth >= 1,
        1 <= k < children.len(),
        children[0] == Sexp::Atom("pts"@),
        children[k] is List,
    ensures
        separator(children, depth, k) == if children.subrange(1, k).filter(
            |child: Sexp| child is List,
        ).len() % 6 == 0 {
            seq!['\n'] + Seq::new(depth + 1, |i: int| '\t')
        } else {
            seq![' ']
        },
        closing(children, depth) == seq!['\n'] + Seq::new(depth, |i: int| '\t'),
{
    lemma_tags_differ();
    lemma_lists_before(children, k, |child: Sexp| child is List);
}

proof fn lemma_lists_before(children: Seq<Sexp>, k: int, is_list: spec_fn(Sexp) -> bool)
    requires
        1 <= k <= children.len(),
        forall|child: Sexp| #[trigger] is_list(child) == (child is List),
    ensures
        lists_before(children, k) == children.subrange(1, k).filter(is_list).len(),
    decreases k,
{
    reveal(Seq::filter);
    if k > 1 {
        lemma_lists_before(children, k - 1, is_list);
        assert(children.subrange(1, k).drop_last() =~= children.subrange(1, k - 1));
        assert(children.subrange(1, k).last() == children[k - 1]);
    }
}

/// Below the root, a `data` payload of several chunks keeps its first chunk one space
/// behind its tag, gives each further chunk a line of its own and closes on a line of
/// its own.
pub proof fn a_payload_takes_a_line_per_chunk(children: Seq<Sexp>, depth: nat, k: int)
    requires
        depth >= 1,
        children.len() > 2,
        children[0] == Sexp::Atom("data"@),
        2 <= k < children.len(),
    ensures
        separator(children, depth, 1) == seq![' '],
        separator(children, depth, k) == seq!['\n'] + Seq::new(depth + 1, |i: int| '\t'),
        closing(children, depth) == seq!['\n'] + Seq::new(depth, |i: int| '\t'),
{
}

} // verus!
