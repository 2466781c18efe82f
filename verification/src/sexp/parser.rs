//! Reading the S-expression notation.
//!
//! A document is one node: a list in parens, a quoted string, or an atom, which
//! runs up to the next white space, paren or quote.

use super::{lemma_list_view, models, Sexp, SexpNode};
use vstd::prelude::*;

verus! {

/// Why a text is not a document.
#[derive(Debug, Clone, Copy, PartialEq, Eq, Structural)]
pub enum ParseError {
    /// The text ends where a node or a closing paren is due.
    UnexpectedEnd,
    /// A closing paren stands where a node is due.
    UnexpectedClose,
    /// The text ends inside a quoted string.
    UnterminatedString,
    /// Something other than white space follows the document's node.
    TrailingText,
}

/// White space, which separates nodes.
pub open spec fn is_space(c: char) -> bool {
    c == ' ' || c == '\t' || c == '\n' || c == '\r'
}

/// A character that ends an atom.
pub open spec fn is_delimiter(c: char) -> bool {
    is_space(c) || c == '(' || c == ')' || c == '"'
}

/// The first position from `i` on that holds no white space.
pub open spec fn after_space(s: Seq<char>, i: int) -> int
    decreases s.len() - i,
{
    if 0 <= i < s.len() && is_space(s[i]) {
        after_space(s, i + 1)
    } else {
        i
    }
}

/// The first position from `i` on that holds no character of an atom.
pub open spec fn atom_end(s: Seq<char>, i: int) -> int
    decreases s.len() - i,
{
    if 0 <= i < s.len() && !is_delimiter(s[i]) {
        atom_end(s, i + 1)
    } else {
        i
    }
}

/// What a backslash followed by `c` stands for. A pair that is no escape keeps
/// both of its characters.
pub open spec fn unescaped(c: char) -> Seq<char> {
    if c == '"' {
        seq!['"']
    } else if c == '\\' {
        seq!['\\']
    } else if c == 'n' {
        seq!['\n']
    } else if c == 't' {
        seq!['\t']
    } else if c == 'r' {
        seq!['\r']
    } else {
        seq!['\\', c]
    }
}

/// Puts `head` in front of the string that was read.
pub open spec fn prepended(
    head: Seq<char>,
    rest: Result<(Seq<char>, int), ParseError>,
) -> Result<(Seq<char>, int), ParseError> {
    match rest {
        Ok((tail, end)) => Ok((head + tail, end)),
        Err(e) => Err(e),
    }
}

/// The string whose contents start at `i`, and the position after its quote.
pub open spec fn read_string(s: Seq<char>, i: int) -> Result<(Seq<char>, int), ParseError>
    decreases s.len() - i,
{
    if !(0 <= i < s.len()) {
        Err(ParseError::UnterminatedString)
    } else if s[i] == '"' {
        Ok((Seq::empty(), i + 1))
    } else if s[i] == '\\' {
        if i + 1 < s.len() {
            prepended(unescaped(s[i + 1]), read_string(s, i + 2))
        } else {
            Err(ParseError::UnterminatedString)
        }
    } else {
        prepended(seq![s[i]], read_string(s, i + 1))
    }
}

/// The node that starts at `i`, and the position after it.
pub open spec fn read_node(s: Seq<char>, i: int) -> Result<(Sexp, int), ParseError>
    decreases s.len() - i, 1int,
{
    if !(0 <= i < s.len()) {
        Err(ParseError::UnexpectedEnd)
    } else if s[i] == '(' {
        match read_items(s, i + 1) {
            Ok((items, end)) => Ok((Sexp::List(items), end)),
            Err(e) => Err(e),
        }
    } else if s[i] == ')' {
        Err(ParseError::UnexpectedClose)
    } else if s[i] == '"' {
        match read_string(s, i + 1) {
            Ok((contents, end)) => Ok((Sexp::Str(contents), end)),
            Err(e) => Err(e),
        }
    } else {
        Ok((Sexp::Atom(s.subrange(i, atom_end(s, i))), atom_end(s, i)))
    }
}

/// The nodes from `i` up to the closing paren of the list they stand in, and
/// the position after that paren.
pub open spec fn read_items(s: Seq<char>, i: int) -> Result<(Seq<Sexp>, int), ParseError>
    decreases s.len() - i, 2int,
{
    let start = after_space(s, i);
    if !(i <= start < s.len()) {
        Err(ParseError::UnexpectedEnd)
    } else if s[start] == ')' {
        Ok((Seq::empty(), start + 1))
    } else {
        match read_node(s, start) {
            Ok((node, next)) => if start < next <= s.len() {
                match read_items(s, next) {
                    Ok((rest, end)) => Ok((seq![node] + rest, end)),
                    Err(e) => Err(e),
                }
            } else {
                Err(ParseError::UnexpectedEnd)
            },
            Err(e) => Err(e),
        }
    }
}

/// The node that a text holds, alone but for white space around it.
pub open spec fn read_document(s: Seq<char>) -> Result<Sexp, ParseError> {
    match read_node(s, after_space(s, 0)) {
        Ok((node, end)) => if after_space(s, end) == s.len() {
            Ok(node)
        } else {
            Err(ParseError::TrailingText)
        },
        Err(e) => Err(e),
    }
}

pub proof fn lemma_after_space_range(s: Seq<char>, i: int)
    requires
        0 <= i <= s.len(),
    ensures
        i <= after_space(s, i) <= s.len(),
        after_space(s, i) < s.len() ==> !is_space(s[after_space(s, i)]),
    decreases s.len() - i,
{
    if i < s.len() && is_space(s[i]) {
        lemma_after_space_range(s, i + 1);
    }
}

pub proof fn lemma_atom_end_range(s: Seq<char>, i: int)
    requires
        0 <= i <= s.len(),
    ensures
        i <= atom_end(s, i) <= s.len(),
        forall|j: int| i <= j < atom_end(s, i) ==> !is_delimiter(#[trigger] s[j]),
    decreases s.len() - i,
{
    if i < s.len() && !is_delimiter(s[i]) {
        lemma_atom_end_range(s, i + 1);
    }
}

proof fn lemma_read_string_range(s: Seq<char>, i: int)
    requires
        0 <= i,
    ensures
        read_string(s, i) matches Ok((_, end)) ==> i < end <= s.len(),
    decreases s.len() - i,
{
    if i < s.len() {
        lemma_read_string_range(s, i + 1);
        if i + 1 < s.len() {
            lemma_read_string_range(s, i + 2);
        }
    }
}

/// Reading a node moves forward and stays within the text.
pub proof fn lemma_read_node_range(s: Seq<char>, i: int)
    requires
        0 <= i,
        i < s.len() ==> !is_space(s[i]),
    ensures
        read_node(s, i) matches Ok((_, end)) ==> i < end <= s.len(),
    decreases s.len() - i, 1int,
{
    if i < s.len() {
        lemma_read_items_range(s, i + 1);
        lemma_read_string_range(s, i + 1);
        lemma_atom_end_range(s, i);
        lemma_atom_end_range(s, i + 1);
    }
}

proof fn lemma_read_items_range(s: Seq<char>, i: int)
    requires
        0 <= i,
    ensures
        read_items(s, i) matches Ok((_, end)) ==> i < end <= s.len(),
    decreases s.len() - i, 2int,
{
    if i <= s.len() {
        lemma_after_space_range(s, i);
        let start = after_space(s, i);
        if start < s.len() && s[start] != ')' {
            lemma_read_node_range(s, start);
            if let Ok((node, next)) = read_node(s, start) {
                lemma_read_items_range(s, next);
            }
        }
    }
}

fn skip_space(s: &Vec<char>, from: usize) -> (to: usize)
    requires
        from <= s@.len(),
    ensures
        to == after_space(s@, from as int),
        from <= to <= s@.len(),
{
    let mut i: usize = from;
    while i < s.len() && (s[i] == ' ' || s[i] == '\t' || s[i] == '\n' || s[i] == '\r')
        invariant
            from <= i <= s@.len(),
            after_space(s@, from as int) == after_space(s@, i as int),
        decreases s.len() - i,
    {
        i += 1;
    }
    i
}

fn parse_atom(s: &Vec<char>, from: usize) -> (res: (String, usize))
    requires
        from <= s@.len(),
    ensures
        res.1 == atom_end(s@, from as int),
        from <= res.1 <= s@.len(),
        res.0@ == s@.subrange(from as int, res.1 as int),
{
    let mut word = String::new();
    let mut i: usize = from;
    while i < s.len() && !(s[i] == ' ' || s[i] == '\t' || s[i] == '\n' || s[i] == '\r' || s[i] == '('
        || s[i] == ')' || s[i] == '"')
        invariant
            from <= i <= s@.len(),
            atom_end(s@, from as int) == atom_end(s@, i as int),
            word@ == s@.subrange(from as int, i as int),
        decreases s.len() - i,
    {
        word.push(s[i]);
        i += 1;
    }
    (word, i)
}

fn parse_string(s: &Vec<char>, from: usize) -> (res: Result<(String, usize), ParseError>)
    requires
        from <= s@.len(),
    ensures
        match res {
            Ok((contents, end)) => read_string(s@, from as int) == Ok::<_, ParseError>(
                (contents@, end as int),
            ),
            Err(e) => read_string(s@, from as int) == Err::<(Seq<char>, int), _>(e),
        },
{
    let mut contents = String::new();
    let mut i: usize = from;
    assert(prepended(contents@, read_string(s@, i as int)) =~= read_string(s@, i as int)) by {
        if let Ok((tail, end)) = read_string(s@, i as int) {
            assert(contents@ + tail =~= tail);
        }
    }
    while i < s.len()
        invariant
            from <= i <= s@.len(),
            read_string(s@, from as int) == prepended(contents@, read_string(s@, i as int)),
        decreases s.len() - i,
    {
        let ghost before = contents@;
        let ghost at = i as int;
        let c = s[i];
        if c == '"' {
            return Ok((contents, i + 1));
        }
        if c == '\\' {
            if s.len() - i < 2 {
                return Err(ParseError::UnterminatedString);
            }
            let e = s[i + 1];
            if e == '"' || e == '\\' {
                contents.push(e);
            } else if e == 'n' {
                contents.push('\n');
            } else if e == 't' {
                contents.push('\t');
            } else if e == 'r' {
                contents.push('\r');
            } else {
                contents.push('\\');
                contents.push(e);
            }
            i += 2;
            assert(contents@ =~= before + unescaped(e));
        } else {
            contents.push(c);
            i += 1;
            assert(contents@ =~= before + seq![c]);
        }
        assert(prepended(before, read_string(s@, at)) == prepended(
            contents@,
            read_string(s@, i as int),
        )) by {
            if let Ok((tail, end)) = read_string(s@, i as int) {
                if c == '\\' {
                    assert(before + (unescaped(s@[at + 1]) + tail) =~= contents@ + tail);
                } else {
                    assert(before + (seq![c] + tail) =~= contents@ + tail);
                }
            }
        }
    }
    Err(ParseError::UnterminatedString)
}

fn parse_node(s: &Vec<char>, from: usize) -> (res: Result<(SexpNode, usize), ParseError>)
    requires
        from <= s@.len(),
    ensures
        match res {
            Ok((node, end)) => read_node(s@, from as int) == Ok::<_, ParseError>(
                (node@, end as int),
            ),
            Err(e) => read_node(s@, from as int) == Err::<(Sexp, int), _>(e),
        },
    decreases s@.len() - from,
{
    if from >= s.len() {
        return Err(ParseError::UnexpectedEnd);
    }
    let c = s[from];
    if c == '(' {
        let mut children: Vec<SexpNode> = Vec::new();
        let mut i: usize = from + 1;
        proof {
            if let Ok((rest, end)) = read_items(s@, i as int) {
                assert(models(children@) + rest =~= rest);
            }
        }
        loop
            invariant
                from < i <= s@.len(),
                from < s@.len(),
                match read_items(s@, i as int) {
                    Ok((rest, end)) => read_items(s@, from + 1) == Ok::<_, ParseError>(
                        (models(children@) + rest, end),
                    ),
                    Err(e) => read_items(s@, from + 1) == Err::<(Seq<Sexp>, int), _>(e),
                },
                s@[from as int] == '(',
            decreases s@.len() - i,
        {
            let start = skip_space(s, i);
            if start >= s.len() {
                return Err(ParseError::UnexpectedEnd);
            }
            if s[start] == ')' {
                proof {
                    lemma_list_view(children);
                    assert(models(children@) + Seq::<Sexp>::empty() =~= models(children@));
                }
                return Ok((SexpNode::List(children), start + 1));
            }
            proof {
                lemma_after_space_range(s@, i as int);
                lemma_read_node_range(s@, start as int);
            }
            match parse_node(s, start) {
                Err(e) => {
                    return Err(e);
                },
                Ok((node, next)) => {
                    let ghost before = models(children@);
                    let ghost read = node@;
                    children.push(node);
                    proof {
                        assert(models(children@) =~= before.push(read));
                        if let Ok((rest, end)) = read_items(s@, next as int) {
                            assert(before + (seq![read] + rest) =~= models(children@) + rest);
                        }
                    }
                    i = next;
                },
            }
        }
    } else if c == ')' {
        Err(ParseError::UnexpectedClose)
    } else if c == '"' {
        match parse_string(s, from + 1) {
            Ok((contents, end)) => Ok((SexpNode::Str(contents), end)),
            Err(e) => Err(e),
        }
    } else {
        let (word, end) = parse_atom(s, from);
        Ok((SexpNode::Atom(word), end))
    }
}

fn characters(text: &str) -> (res: Vec<char>)
    ensures
        res@ == text@,
{
    let mut res: Vec<char> = Vec::new();
    for c in it: text.chars()
        invariant
            it.seq() == text@,
            res@ == text@.take(it.index() as int),
    {
        res.push(c);
        assert(text@.take(it.index() as int + 1) =~= text@.take(it.index() as int).push(c));
    }
    assert(text@.take(text@.len() as int) =~= text@);
    res
}

/// Reads the node that `text` holds.
pub fn parse(text: &str) -> (res: Result<SexpNode, ParseError>)
    ensures
        match res {
            Ok(node) => read_document(text@) == Ok::<_, ParseError>(node@),
            Err(e) => read_document(text@) == Err::<Sexp, _>(e),
        },
{
    let s = characters(text);
    let start = skip_space(&s, 0);
    match parse_node(&s, start) {
        Err(e) => Err(e),
        Ok((node, end)) => {
            proof {
                lemma_after_space_range(s@, 0);
                lemma_read_node_range(s@, start as int);
            }
            let last = skip_space(&s, end);
            if last == s.len() {
                Ok(node)
            } else {
                Err(ParseError::TrailingText)
            }
        },
    }
}

} // verus!
