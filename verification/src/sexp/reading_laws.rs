//! What the parser reads where, construct by construct.
//!
//! The laws here name the characters as they stand in a file.

use super::laws::{lemma_atom_run, lemma_read_escaped, lemma_skip_run};
use super::parser::{
    after_space, is_space, lemma_after_space_range, lemma_read_node_range,
    read_document, read_items, read_node, read_string, ParseError,
};
use super::writer::escaped;
use super::Sexp;
use vstd::prelude::*;

verus! {

/// Every word is read whole, wherever it stands: nothing but a space, a tab, a line
/// feed, a carriage return, a paren or a quote ends it.
pub proof fn a_word_is_read_whole(before: Seq<char>, word: Seq<char>, rest: Seq<char>)
    requires
        word.len() > 0,
        forall|i: int|
            0 <= i < word.len() ==> {
                let c = #[trigger] word[i];
                &&& c != ' ' && c != '\t' && c != '\n' && c != '\r'
                &&& c != '(' && c != ')' && c != '"'
            },
        rest.len() > 0 ==> rest[0] == ' ' || rest[0] == '\t' || rest[0] == '\n' || rest[0] == '\r'
            || rest[0] == '(' || rest[0] == ')' || rest[0] == '"',
    ensures
        read_node(before + word + rest, before.len() as int) == Ok::<_, ParseError>(
            (Sexp::Atom(word), (before.len() + word.len()) as int),
        ),
        before.len() == 0 && rest.len() == 0 ==> read_document(word) == Ok::<_, ParseError>(
            Sexp::Atom(word),
        ),
{
    let s = before + word + rest;
    let at = before.len() as int;
    assert(s[at] == word[0]);
    lemma_atom_run(before, word, rest);
    assert(s.subrange(at, at + word.len()) =~= word);
    if before.len() == 0 && rest.len() == 0 {
        assert(s =~= word);
    }
}

/// Every string is read back from its escaped form, wherever it stands.
pub proof fn a_string_is_read_whole(before: Seq<char>, contents: Seq<char>, rest: Seq<char>)
    ensures
        read_node(before + seq!['"'] + escaped(contents) + seq!['"'] + rest, before.len() as int)
            == Ok::<_, ParseError>(
            (Sexp::Str(contents), (before.len() + escaped(contents).len() + 2) as int),
        ),
{
    let s = before + seq!['"'] + escaped(contents) + seq!['"'] + rest;
    assert(s[before.len() as int] == '"');
    lemma_read_escaped(before + seq!['"'], contents, rest);
}

/// `longer` is what is read where `head` stands in front of what `shorter` reads.
pub open spec fn goes_on<A>(
    longer: Result<(Seq<A>, int), ParseError>,
    head: Seq<A>,
    shorter: Result<(Seq<A>, int), ParseError>,
) -> bool {
    match shorter {
        Ok((tail, end)) => longer == Ok::<_, ParseError>((head + tail, end)),
        Err(e) => longer == Err::<(Seq<A>, int), _>(e),
    }
}

/// Inside a string every character stands for itself but the quote, which ends it, and
/// the backslash. A backslash and the character behind it stand for a quote, a
/// backslash, a line feed, a tab or a carriage return, or for themselves, both of
/// them.
pub proof fn a_string_is_read_character_by_character(s: Seq<char>, i: int)
    requires
        0 <= i < s.len(),
    ensures
        s[i] == '"' ==> read_string(s, i) == Ok::<_, ParseError>((Seq::<char>::empty(), i + 1)),
        s[i] != '"' && s[i] != '\\' ==> goes_on(
            read_string(s, i),
            seq![s[i]],
            read_string(s, i + 1),
        ),
        s[i] == '\\' && i + 1 < s.len() ==> goes_on(
            read_string(s, i),
            if s[i + 1] == '"' {
                seq!['"']
            } else if s[i + 1] == '\\' {
                seq!['\\']
            } else if s[i + 1] == 'n' {
                seq!['\n']
            } else if s[i + 1] == 't' {
                seq!['\t']
            } else if s[i + 1] == 'r' {
                seq!['\r']
            } else {
                seq!['\\', s[i + 1]]
            },
            read_string(s, i + 2),
        ),
        s[i] == '\\' && i + 1 == s.len() ==> read_string(s, i) == Err::<(Seq<char>, int), _>(
            ParseError::UnterminatedString,
        ),
        read_string(s, s.len() as int) == Err::<(Seq<char>, int), _>(
            ParseError::UnterminatedString,
        ),
{
}

/// What a node is shows in its first character: a paren opens a list, a quote a
/// string, and a closing paren is no node.
pub proof fn the_first_character_tells_the_node(s: Seq<char>, i: int)
    requires
        0 <= i < s.len(),
    ensures
        s[i] == '(' ==> match read_items(s, i + 1) {
            Ok((items, end)) => read_node(s, i) == Ok::<_, ParseError>((Sexp::List(items), end)),
            Err(e) => read_node(s, i) == Err::<(Sexp, int), _>(e),
        },
        s[i] == '"' ==> match read_string(s, i + 1) {
            Ok((contents, end)) => read_node(s, i) == Ok::<_, ParseError>(
                (Sexp::Str(contents), end),
            ),
            Err(e) => read_node(s, i) == Err::<(Sexp, int), _>(e),
        },
        s[i] == ')' ==> read_node(s, i) == Err::<(Sexp, int), _>(ParseError::UnexpectedClose),
        read_node(s, s.len() as int) == Err::<(Sexp, int), _>(ParseError::UnexpectedEnd),
{
}

/// The items of a list are read one after the other up to its closing paren, and the
/// white space between them, however much there is, makes no difference.
pub proof fn items_are_read_one_by_one(s: Seq<char>, i: int)
    requires
        0 <= i < s.len(),
    ensures
        s[i] == ' ' || s[i] == '\t' || s[i] == '\n' || s[i] == '\r' ==> read_items(s, i)
            == read_items(s, i + 1),
        s[i] == ')' ==> read_items(s, i) == Ok::<_, ParseError>((Seq::<Sexp>::empty(), i + 1)),
        s[i] != ' ' && s[i] != '\t' && s[i] != '\n' && s[i] != '\r' && s[i] != ')' ==> match read_node(
            s,
            i,
        ) {
            Ok((node, next)) => i < next && goes_on(
                read_items(s, i),
                seq![node],
                read_items(s, next),
            ),
            Err(e) => read_items(s, i) == Err::<(Seq<Sexp>, int), _>(e),
        },
        read_items(s, s.len() as int) == Err::<(Seq<Sexp>, int), _>(ParseError::UnexpectedEnd),
{
    lemma_after_space_range(s, i);
    lemma_after_space_range(s, i + 1);
    if !is_space(s[i]) {
        lemma_read_node_range(s, i);
    }
}

/// A document is one node, with white space around it and nothing else: whatever the
/// white space in front, the node is the one that is read behind it, and any other
/// character behind the node is refused.
pub proof fn a_document_is_one_node(space: Seq<char>, body: Seq<char>)
    requires
        forall|i: int|
            0 <= i < space.len() ==> {
                let c = #[trigger] space[i];
                c == ' ' || c == '\t' || c == '\n' || c == '\r'
            },
        body.len() > 0 ==> body[0] != ' ' && body[0] != '\t' && body[0] != '\n' && body[0] != '\r',
    ensures
        ({
            let s = space + body;
            match read_node(s, space.len() as int) {
                Ok((node, end)) => {
                    &&& space.len() < end <= s.len()
                    &&& read_document(s) == if forall|i: int|
                        end <= i < s.len() ==> {
                            let c = #[trigger] s[i];
                            c == ' ' || c == '\t' || c == '\n' || c == '\r'
                        } {
                        Ok(node)
                    } else {
                        Err(ParseError::TrailingText)
                    }
                },
                Err(e) => read_document(s) == Err::<Sexp, _>(e),
            }
        }),
{
    let s = space + body;
    let none = Seq::<char>::empty();
    assert(none + space + body =~= s);
    assert forall|i: int| 0 <= i < space.len() implies is_space(#[trigger] space[i]) by {}
    lemma_skip_run(none, space, body);
    if body.len() > 0 {
        assert(s[space.len() as int] == body[0]);
    }
    lemma_read_node_range(s, space.len() as int);
    if let Ok((node, end)) = read_node(s, space.len() as int) {
        lemma_after_space_range(s, end);
        lemma_space_up_to(s, end);
    }
}

/// White space is skipped up to the first character that is none.
proof fn lemma_space_up_to(s: Seq<char>, i: int)
    requires
        0 <= i <= s.len(),
    ensures
        forall|j: int| i <= j < after_space(s, i) ==> is_space(#[trigger] s[j]),
    decreases s.len() - i,
{
    if i < s.len() && is_space(s[i]) {
        lemma_space_up_to(s, i + 1);
    }
}

} // verus!
