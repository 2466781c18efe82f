//! Writing the S-expression notation, formatted as eeschema formats it.
//!
//! A file that KiCad saved should come back from an edit with no other line
//! changed, so the writer follows eeschema in where it breaks lines and how it
//! indents them.

use super::{lemma_list_view, models, Sexp, SexpNode};
use crate::text::same_text;
use vstd::prelude::*;

verus! {

/// How many inline sub-lists eeschema puts on one line before wrapping.
pub const INLINE_CHILDREN_PER_LINE: usize = 6;

/// Where the children of a non-empty list go.
#[derive(Debug, Clone, Copy, PartialEq, Eq, Structural)]
pub enum Layout {
    /// The document's own list: every child on a line of its own.
    Root,
    /// An embedded file's base64 payload. eeschema splits it into chunks, one
    /// per line, the first behind the tag.
    Payload,
    /// Scalars behind the tag, each sub-list on a line of its own.
    Nested,
    /// Scalars behind the tag, the sub-lists together, wrapped after every
    /// [`INLINE_CHILDREN_PER_LINE`] of them: the points of a `pts`.
    Packed,
    /// All on one line.
    Flat,
}

/// The tag of a list: its first child, if that is an atom.
pub open spec fn tag(children: Seq<Sexp>) -> Seq<char> {
    if children.len() > 0 && children[0] is Atom {
        children[0]->Atom_0
    } else {
        Seq::empty()
    }
}

/// How the list with these children is laid out at a depth.
pub open spec fn layout(children: Seq<Sexp>, depth: nat) -> Layout {
    if depth == 0 {
        Layout::Root
    } else if tag(children) == "data"@ && children.len() > 2 {
        Layout::Payload
    } else if exists|i: int| 1 <= i < children.len() && #[trigger] children[i] is List {
        if tag(children) == "pts"@ {
            Layout::Packed
        } else {
            Layout::Nested
        }
    } else {
        Layout::Flat
    }
}

/// An indent: eeschema indents with tabs.
pub open spec fn tabs(depth: nat) -> Seq<char> {
    Seq::new(depth, |i: int| '\t')
}

/// How many sub-lists stand behind the tag and in front of the `k`-th child.
pub open spec fn lists_before(children: Seq<Sexp>, k: int) -> nat
    decreases k,
{
    if k <= 1 {
        0
    } else if children[k - 1] is List {
        lists_before(children, k - 1) + 1
    } else {
        lists_before(children, k - 1)
    }
}

/// Whether the `k`-th child, not the first, starts a line.
pub open spec fn starts_line(children: Seq<Sexp>, depth: nat, k: int) -> bool {
    match layout(children, depth) {
        Layout::Root => true,
        Layout::Payload => k >= 2,
        Layout::Nested => children[k] is List,
        Layout::Packed => children[k] is List && lists_before(children, k)
            % (INLINE_CHILDREN_PER_LINE as nat) == 0,
        Layout::Flat => false,
    }
}

/// What stands in front of the `k`-th child.
pub open spec fn separator(children: Seq<Sexp>, depth: nat, k: int) -> Seq<char> {
    if k == 0 {
        Seq::empty()
    } else if starts_line(children, depth, k) {
        seq!['\n'] + tabs(depth + 1)
    } else {
        seq![' ']
    }
}

/// What stands in front of the closing paren: in a list of several lines, it
/// has a line of its own, at the list's own indent.
pub open spec fn closing(children: Seq<Sexp>, depth: nat) -> Seq<char> {
    if layout(children, depth) is Flat {
        Seq::empty()
    } else {
        seq!['\n'] + tabs(depth)
    }
}

/// A character as it stands inside quotes.
pub open spec fn escaped_char(c: char) -> Seq<char> {
    if c == '"' {
        seq!['\\', '"']
    } else if c == '\\' {
        seq!['\\', '\\']
    } else if c == '\n' {
        seq!['\\', 'n']
    } else if c == '\t' {
        seq!['\\', 't']
    } else if c == '\r' {
        seq!['\\', 'r']
    } else {
        seq![c]
    }
}

/// A string as it stands inside quotes.
pub open spec fn escaped(contents: Seq<char>) -> Seq<char>
    decreases contents.len(),
{
    if contents.len() == 0 {
        Seq::empty()
    } else {
        escaped_char(contents[0]) + escaped(contents.skip(1))
    }
}

/// The text of a node at a depth.
pub open spec fn text(node: Sexp, depth: nat) -> Seq<char>
    decreases node, 0nat,
{
    match node {
        Sexp::Atom(word) => word,
        Sexp::Str(contents) => seq!['"'] + escaped(contents) + seq!['"'],
        Sexp::List(children) => if children.len() == 0 {
            seq!['(', ')']
        } else {
            seq!['('] + children_text(children, depth, 0) + closing(children, depth) + seq![')']
        },
    }
}

/// The text of the children of a list at a depth, from the `k`-th on.
pub open spec fn children_text(children: Seq<Sexp>, depth: nat, k: int) -> Seq<char>
    decreases children, children.len() - k,
{
    if 0 <= k < children.len() {
        separator(children, depth, k) + text(children[k], depth + 1) + children_text(
            children,
            depth,
            k + 1,
        )
    } else {
        Seq::empty()
    }
}

/// The text of a document.
pub open spec fn document(node: Sexp) -> Seq<char> {
    text(node, 0) + seq!['\n']
}

/// The tag of a list, for formatting decisions.
fn tag_of(children: &Vec<SexpNode>) -> (res: &str)
    ensures
        res@ == tag(models(children@)),
{
    if children.len() > 0 {
        assert(models(children@)[0] == children@[0]@);
        if let SexpNode::Atom(word) = &children[0] {
            return word.as_str();
        }
    }
    proof {
        reveal_strlit("");
    }
    assert(""@ =~= Seq::<char>::empty());
    ""
}

fn has_list_child(children: &Vec<SexpNode>) -> (res: bool)
    ensures
        res == (exists|i: int| 1 <= i < children@.len() && #[trigger] models(children@)[i] is List),
{
    let mut i: usize = 1;
    while i < children.len()
        invariant
            1 <= i,
            forall|j: int|
                1 <= j < i && j < children@.len() ==> !(#[trigger] models(children@)[j] is List),
        decreases children.len() - i,
    {
        assert(models(children@)[i as int] == children@[i as int]@);
        if children[i].is_list() {
            return true;
        }
        i += 1;
    }
    false
}

fn layout_of(children: &Vec<SexpNode>, indent: &str) -> (res: Layout)
    ensures
        res == layout(models(children@), indent@.len()),
{
    if indent.is_empty() {
        Layout::Root
    } else if same_text(tag_of(children), "data") && children.len() > 2 {
        Layout::Payload
    } else if has_list_child(children) {
        if same_text(tag_of(children), "pts") {
            Layout::Packed
        } else {
            Layout::Nested
        }
    } else {
        Layout::Flat
    }
}

/// Writes `node` as the text of a document.
pub fn write(node: &SexpNode) -> (res: String)
    ensures
        res@ == document(node@),
{
    let mut buf = String::new();
    proof {
        reveal_strlit("");
    }
    assert(""@ =~= tabs(0));
    write_node(node, &mut buf, "");
    buf.push('\n');
    buf
}

/// Appends the text of `node` to `buf`, as it stands in a list that is indented by
/// `indent`. The indent stands for the depth: it is as many tabs.
pub fn write_node(node: &SexpNode, buf: &mut String, indent: &str)
    requires
        indent@ == tabs(indent@.len()),
    ensures
        final(buf)@ == old(buf)@ + text(node@, indent@.len()),
    decreases node,
{
    match node {
        SexpNode::Atom(word) => {
            buf.append(word.as_str());
        },
        SexpNode::Str(contents) => {
            buf.push('"');
            write_escaped(contents.as_str(), buf);
            buf.push('"');
        },
        SexpNode::List(children) => {
            if children.len() == 0 {
                proof {
                    lemma_list_view(*children);
                }
                buf.push('(');
                buf.push(')');
                return ;
            }
            let ghost kids = models(children@);
            let ghost depth = indent@.len();
            let ghost start = buf@;
            proof {
                lemma_list_view(*children);
            }
            let shape = layout_of(children, indent);
            let mut inner = indent.to_owned();
            inner.push('\t');
            assert(inner@ =~= tabs(depth + 1));

            buf.push('(');
            let mut lists: usize = 0;
            let mut i: usize = 0;
            while i < children.len()
                invariant
                    i <= children@.len(),
                    lists <= i,
                    lists == lists_before(kids, i as int),
                    kids == models(children@),
                    depth == indent@.len(),
                    shape == layout(kids, depth),
                    inner@ == tabs(depth + 1),
                    node == SexpNode::List(*children),
                    buf@ + children_text(kids, depth, i as int) == start + seq!['(']
                        + children_text(kids, depth, 0),
                decreases children.len() - i,
            {
                assert(kids[i as int] == children@[i as int]@);
                assert(decreases_to!(node => node->List_0@[i as int]));
                if i > 0 {
                    let own_line = match shape {
                        Layout::Root => true,
                        Layout::Payload => i >= 2,
                        Layout::Nested => children[i].is_list(),
                        Layout::Packed => children[i].is_list() && lists
                            % INLINE_CHILDREN_PER_LINE == 0,
                        Layout::Flat => false,
                    };
                    if own_line {
                        buf.push('\n');
                        write_indent(buf, inner.as_str());
                    } else {
                        buf.push(' ');
                    }
                }
                write_node(&children[i], buf, inner.as_str());
                if i > 0 && children[i].is_list() {
                    lists += 1;
                }
                i += 1;
            }
            match shape {
                Layout::Flat => {},
                _ => {
                    buf.push('\n');
                    write_indent(buf, indent);
                },
            }
            buf.push(')');
        },
    }
}

/// Writes what stands between the quotes of a string.
fn write_escaped(contents: &str, buf: &mut String)
    ensures
        final(buf)@ == old(buf)@ + escaped(contents@),
{
    let ghost start = buf@;
    assert(contents@.skip(0) =~= contents@);
    for c in it: contents.chars()
        invariant
            it.seq() == contents@,
            buf@ + escaped(contents@.skip(it.index() as int)) == start + escaped(contents@),
    {
        let ghost rest = contents@.skip(it.index() as int);
        assert(rest[0] == c);
        assert(rest.skip(1) =~= contents@.skip(it.index() as int + 1));
        if c == '"' {
            buf.push('\\');
            buf.push('"');
        } else if c == '\\' {
            buf.push('\\');
            buf.push('\\');
        } else if c == '\n' {
            buf.push('\\');
            buf.push('n');
        } else if c == '\t' {
            buf.push('\\');
            buf.push('t');
        } else if c == '\r' {
            buf.push('\\');
            buf.push('r');
        } else {
            buf.push(c);
        }
    }
    assert(contents@.skip(contents@.len() as int) =~= Seq::<char>::empty());
}

/// Writes the indent of a line. Spaces in place of its tabs would re-indent
/// every line of a file that KiCad last saved, and bury an edit in a whole-file
/// diff.
fn write_indent(buf: &mut String, indent: &str)
    requires
        indent@ == tabs(indent@.len()),
    ensures
        final(buf)@ == old(buf)@ + tabs(indent@.len()),
{
    buf.append(indent);
}

} // verus!
