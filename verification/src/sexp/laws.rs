//! What the writer and the parser promise together.

use super::parser::{
    after_space, atom_end, is_delimiter, is_space, lemma_after_space_range, lemma_atom_end_range,
    read_document, read_items, read_node, read_string, unescaped, ParseError,
};
use super::writer::{
    children_text, closing, document, escaped, escaped_char, layout, lists_before, separator,
    starts_line, tabs, tag, text,
};
use super::Sexp;
use vstd::prelude::*;

verus! {

/// A tree that the notation can carry: each atom is a non-empty word without
/// white space, parens or quotes. Strings may hold anything.
pub open spec fn printable(node: Sexp) -> bool
    decreases node,
{
    match node {
        Sexp::Atom(s) => s.len() > 0 && forall|i: int|
            0 <= i < s.len() ==> {
                let c = #[trigger] s[i];
                &&& c != ' ' && c != '\t' && c != '\n' && c != '\r'
                &&& c != '(' && c != ')' && c != '"'
            },
        Sexp::Str(_) => true,
        Sexp::List(children) => forall|i: int|
            0 <= i < children.len() ==> printable(#[trigger] children[i]),
    }
}

/// White space is skipped up to what follows it.
pub proof fn lemma_skip_run(before: Seq<char>, run: Seq<char>, rest: Seq<char>)
    requires
        forall|i: int| 0 <= i < run.len() ==> is_space(#[trigger] run[i]),
        rest.len() > 0 ==> !is_space(rest[0]),
    ensures
        after_space(before + run + rest, before.len() as int) == before.len() + run.len(),
    decreases run.len(),
{
    let s = before + run + rest;
    if run.len() == 0 {
        if rest.len() > 0 {
            assert(s[before.len() as int] == rest[0]);
        }
    } else {
        assert(s[before.len() as int] == run[0]);
        let tail = run.skip(1);
        assert forall|i: int| 0 <= i < tail.len() implies is_space(#[trigger] tail[i]) by {
            assert(tail[i] == run[i + 1]);
        }
        lemma_skip_run(before.push(run[0]), tail, rest);
        assert(before.push(run[0]) + tail + rest =~= s);
    }
}

/// An atom runs up to what ends it.
pub proof fn lemma_atom_run(before: Seq<char>, run: Seq<char>, rest: Seq<char>)
    requires
        forall|i: int| 0 <= i < run.len() ==> !is_delimiter(#[trigger] run[i]),
        rest.len() > 0 ==> is_delimiter(rest[0]),
    ensures
        atom_end(before + run + rest, before.len() as int) == before.len() + run.len(),
    decreases run.len(),
{
    let s = before + run + rest;
    if run.len() == 0 {
        if rest.len() > 0 {
            assert(s[before.len() as int] == rest[0]);
        }
    } else {
        assert(s[before.len() as int] == run[0]);
        let tail = run.skip(1);
        assert forall|i: int| 0 <= i < tail.len() implies !is_delimiter(#[trigger] tail[i]) by {
            assert(tail[i] == run[i + 1]);
        }
        lemma_atom_run(before.push(run[0]), tail, rest);
        assert(before.push(run[0]) + tail + rest =~= s);
    }
}

/// A string that was escaped is read back.
pub proof fn lemma_read_escaped(before: Seq<char>, contents: Seq<char>, rest: Seq<char>)
    ensures
        read_string(before + escaped(contents) + seq!['"'] + rest, before.len() as int) == Ok::<
            _,
            ParseError,
        >((contents, (before.len() + escaped(contents).len() + 1) as int)),
    decreases contents.len(),
{
    let s = before + escaped(contents) + seq!['"'] + rest;
    let at = before.len() as int;
    if contents.len() == 0 {
        assert(s[at] == '"');
        assert(contents =~= Seq::<char>::empty());
    } else {
        let c = contents[0];
        let unit = escaped_char(c);
        let tail = contents.skip(1);
        lemma_read_escaped(before + unit, tail, rest);
        assert((before + unit) + escaped(tail) + seq!['"'] + rest =~= s);
        assert(s[at] == unit[0]);
        if unit.len() == 2 {
            assert(s[at + 1] == unit[1]);
            assert(unescaped(unit[1]) =~= seq![c]);
        }
        assert(seq![c] + tail =~= contents);
    }
}

/// The text of a printable node starts where a node can start.
proof fn lemma_text_start(node: Sexp, depth: nat)
    requires
        printable(node),
    ensures
        text(node, depth).len() > 0,
        !is_space(text(node, depth)[0]),
        text(node, depth)[0] != ')',
        node is Atom ==> !is_delimiter(text(node, depth)[0]),
{
}

proof fn lemma_separator_is_space(children: Seq<Sexp>, depth: nat, k: int)
    ensures
        forall|i: int|
            0 <= i < separator(children, depth, k).len() ==> is_space(
                #[trigger] separator(children, depth, k)[i],
            ),
        k != 0 ==> separator(children, depth, k).len() > 0,
{
}

proof fn lemma_closing_is_space(children: Seq<Sexp>, depth: nat)
    ensures
        forall|i: int|
            0 <= i < closing(children, depth).len() ==> is_space(
                #[trigger] closing(children, depth)[i],
            ),
{
}

/// The node that stands between `before` and `rest` is read back.
proof fn lemma_read_text(node: Sexp, depth: nat, before: Seq<char>, rest: Seq<char>)
    requires
        printable(node),
        node is Atom && rest.len() > 0 ==> is_delimiter(rest[0]),
    ensures
        read_node(before + text(node, depth) + rest, before.len() as int) == Ok::<_, ParseError>(
            (node, (before.len() + text(node, depth).len()) as int),
        ),
    decreases node, 0nat,
{
    let s = before + text(node, depth) + rest;
    let at = before.len() as int;
    lemma_text_start(node, depth);
    assert(s[at] == text(node, depth)[0]);
    match node {
        Sexp::Atom(word) => {
            lemma_atom_run(before, word, rest);
            assert(s.subrange(at, at + word.len()) =~= word);
        },
        Sexp::Str(contents) => {
            lemma_read_escaped(before.push('"'), contents, rest);
            assert(before.push('"') + escaped(contents) + seq!['"'] + rest =~= s);
        },
        Sexp::List(children) => {
            if children.len() == 0 {
                assert(s[at + 1] == ')');
                assert(children =~= Seq::<Sexp>::empty());
            } else {
                lemma_read_children(children, depth, 0, before.push('('), rest);
                assert(before.push('(') + children_text(children, depth, 0) + closing(
                    children,
                    depth,
                ) + seq![')'] + rest =~= s);
                assert(children.skip(0) =~= children);
            }
        },
    }
}

/// The children from the `k`-th on are read back, up to the closing paren.
proof fn lemma_read_children(
    children: Seq<Sexp>,
    depth: nat,
    k: int,
    before: Seq<char>,
    rest: Seq<char>,
)
    requires
        0 <= k <= children.len(),
        forall|i: int| 0 <= i < children.len() ==> printable(#[trigger] children[i]),
    ensures
        ({
            let inner = children_text(children, depth, k) + closing(children, depth);
            read_items(
                before + children_text(children, depth, k) + closing(children, depth) + seq![')']
                    + rest,
                before.len() as int,
            ) == Ok::<_, ParseError>(
                (children.skip(k), (before.len() + inner.len() + 1) as int),
            )
        }),
    decreases children, children.len() - k,
{
    let end = closing(children, depth);
    if k == children.len() {
        let s = before + children_text(children, depth, k) + end + seq![')'] + rest;
        lemma_closing_is_space(children, depth);
        lemma_skip_run(before, end, seq![')'] + rest);
        assert(before + end + (seq![')'] + rest) =~= s);
        assert(s[(before.len() + end.len()) as int] == ')');
        assert(children.skip(k) =~= Seq::<Sexp>::empty());
    } else {
        let gap = separator(children, depth, k);
        let node = children[k];
        let words = text(node, depth + 1);
        let more = children_text(children, depth, k + 1);
        let follow = more + end + seq![')'] + rest;
        assert(printable(node));
        lemma_follow(children, depth, k + 1, rest);
        lemma_text_start(node, depth + 1);
        lemma_separator_is_space(children, depth, k);
        lemma_read_text(node, depth + 1, before + gap, follow);
        lemma_read_children(children, depth, k + 1, before + gap + words, rest);
        lemma_child_step(before, gap, words, more, end, rest, node, children.skip(k + 1));
        assert(seq![node] + children.skip(k + 1) =~= children.skip(k));
    }
}

/// A child and its separator in front of items that are read already.
proof fn lemma_child_step(
    before: Seq<char>,
    gap: Seq<char>,
    words: Seq<char>,
    more: Seq<char>,
    end: Seq<char>,
    rest: Seq<char>,
    node: Sexp,
    items: Seq<Sexp>,
)
    requires
        words.len() > 0,
        !is_space(words[0]),
        words[0] != ')',
        forall|i: int| 0 <= i < gap.len() ==> is_space(#[trigger] gap[i]),
        read_node(
            before + gap + words + (more + end + seq![')'] + rest),
            (before + gap).len() as int,
        ) == Ok::<_, ParseError>((node, ((before + gap).len() + words.len()) as int)),
        read_items(
            before + gap + words + more + end + seq![')'] + rest,
            (before + gap + words).len() as int,
        ) == Ok::<_, ParseError>(
            (items, ((before + gap + words).len() + (more + end).len() + 1) as int),
        ),
    ensures
        read_items(
            before + (gap + words + more) + end + seq![')'] + rest,
            before.len() as int,
        ) == Ok::<_, ParseError>(
            (seq![node] + items, (before.len() + (gap + words + more + end).len() + 1) as int),
        ),
{
    let s = before + (gap + words + more) + end + seq![')'] + rest;
    let at = before.len() as int;
    lemma_regroup(before, gap, words, more, end, rest);
    lemma_skip_run(before, gap, words + (more + end + seq![')'] + rest));
    lemma_items_step(
        s,
        at,
        at + gap.len(),
        node,
        at + gap.len() + words.len(),
        items,
        at + gap.len() + words.len() + more.len() + end.len() + 1,
    );
}

/// The same text, cut in front of a child's separator, in front of the child
/// and behind it.
proof fn lemma_regroup(
    before: Seq<char>,
    gap: Seq<char>,
    words: Seq<char>,
    more: Seq<char>,
    end: Seq<char>,
    rest: Seq<char>,
)
    ensures
        ({
            let s = before + (gap + words + more) + end + seq![')'] + rest;
            let follow = more + end + seq![')'] + rest;
            &&& s == before + gap + (words + follow)
            &&& s == before + gap + words + follow
            &&& s == before + gap + words + more + end + seq![')'] + rest
            &&& words.len() > 0 ==> s[(before.len() + gap.len()) as int] == words[0]
            &&& s.len() == before.len() + gap.len() + words.len() + follow.len()
        }),
{
    let s = before + (gap + words + more) + end + seq![')'] + rest;
    let follow = more + end + seq![')'] + rest;
    assert(s =~= before + gap + (words + follow));
    assert(s =~= before + gap + words + follow);
    assert(s =~= before + gap + words + more + end + seq![')'] + rest);
}

/// What stands behind a child is white space or the closing paren.
proof fn lemma_follow(children: Seq<Sexp>, depth: nat, k: int, rest: Seq<char>)
    requires
        1 <= k <= children.len(),
    ensures
        ({
            let follow = children_text(children, depth, k) + closing(children, depth) + seq![')']
                + rest;
            follow.len() > 0 && is_delimiter(follow[0])
        }),
{
    let more = children_text(children, depth, k);
    let end = closing(children, depth);
    let follow = more + end + seq![')'] + rest;
    if k < children.len() {
        lemma_separator_is_space(children, depth, k);
        assert(follow[0] == separator(children, depth, k)[0]);
    } else {
        lemma_closing_is_space(children, depth);
        assert(more =~= Seq::<char>::empty());
        if end.len() > 0 {
            assert(follow[0] == end[0]);
        } else {
            assert(follow[0] == ')');
        }
    }
}

/// One node in front of items that are read already.
proof fn lemma_items_step(
    s: Seq<char>,
    at: int,
    start: int,
    node: Sexp,
    next: int,
    items: Seq<Sexp>,
    end: int,
)
    requires
        0 <= at <= start < next <= s.len(),
        after_space(s, at) == start,
        s[start] != ')',
        read_node(s, start) == Ok::<_, ParseError>((node, next)),
        read_items(s, next) == Ok::<_, ParseError>((items, end)),
    ensures
        read_items(s, at) == Ok::<_, ParseError>((seq![node] + items, end)),
{
}

/// Parsing what the writer wrote gives the tree back.
pub proof fn write_then_parse(node: Sexp)
    requires
        printable(node),
    ensures
        read_document(document(node)) == Ok::<_, ParseError>(node),
{
    let s = document(node);
    let none = Seq::<char>::empty();
    lemma_text_start(node, 0);
    assert(s[0] == text(node, 0)[0]);
    lemma_read_text(node, 0, none, seq!['\n']);
    assert(none + text(node, 0) + seq!['\n'] =~= s);
    lemma_skip_run(text(node, 0), seq!['\n'], none);
    assert(text(node, 0) + seq!['\n'] + none =~= s);
}

/// A text in the writer's layout survives a parse and a write unchanged.
pub proof fn formatted_text_survives(s: Seq<char>, node: Sexp)
    requires
        printable(node),
        s == document(node),
    ensures
        read_document(s) is Ok,
        document(read_document(s)->Ok_0) == s,
{
    write_then_parse(node);
}

/// Different trees are written differently.
pub proof fn writing_is_injective(a: Sexp, b: Sexp)
    requires
        printable(a),
        printable(b),
        document(a) == document(b),
    ensures
        a == b,
{
    write_then_parse(a);
    write_then_parse(b);
}

proof fn lemma_node_is_printable(s: Seq<char>, i: int)
    requires
        0 <= i,
        i < s.len() ==> !is_space(s[i]),
    ensures
        read_node(s, i) matches Ok((node, _)) ==> printable(node),
    decreases s.len() - i, 1int,
{
    if i < s.len() {
        if s[i] == '(' {
            lemma_items_are_printable(s, i + 1);
        } else if s[i] != ')' && s[i] != '"' {
            lemma_atom_end_range(s, i);
            lemma_atom_end_range(s, i + 1);
            let word = s.subrange(i, atom_end(s, i));
            assert forall|j: int| 0 <= j < word.len() implies !is_delimiter(#[trigger] word[j]) by {
                assert(word[j] == s[i + j]);
            }
        }
    }
}

proof fn lemma_items_are_printable(s: Seq<char>, i: int)
    requires
        0 <= i,
    ensures
        read_items(s, i) matches Ok((items, _)) ==> forall|j: int|
            0 <= j < items.len() ==> printable(#[trigger] items[j]),
    decreases s.len() - i, 2int,
{
    if i <= s.len() {
        lemma_after_space_range(s, i);
        let start = after_space(s, i);
        if start < s.len() && s[start] != ')' {
            lemma_node_is_printable(s, start);
            if let Ok((node, next)) = read_node(s, start) {
                if start < next <= s.len() {
                    lemma_items_are_printable(s, next);
                    if let Ok((rest, _)) = read_items(s, next) {
                        let items = seq![node] + rest;
                        assert forall|j: int| 0 <= j < items.len() implies printable(
                            #[trigger] items[j],
                        ) by {
                            if j > 0 {
                                assert(items[j] == rest[j - 1]);
                            }
                        }
                    }
                }
            }
        }
    }
}

/// Every tree that comes out of the parser is printable.
pub proof fn parsed_tree_is_printable(s: Seq<char>)
    ensures
        read_document(s) matches Ok(node) ==> printable(node),
{
    lemma_after_space_range(s, 0);
    lemma_node_is_printable(s, after_space(s, 0));
}

/// However a document was formatted, writing it and parsing it again loses
/// nothing, and from then on the text no longer changes.
pub proof fn parse_write_parse_is_stable(s: Seq<char>)
    requires
        read_document(s) is Ok,
    ensures
        read_document(document(read_document(s)->Ok_0)) == read_document(s),
{
    parsed_tree_is_printable(s);
    write_then_parse(read_document(s)->Ok_0);
}

/// Each line but the first starts with a tab or with a closing paren, so never
/// with a space, and no line is blank.
pub open spec fn tab_indented(s: Seq<char>) -> bool {
    forall|i: int|
        0 <= i && i + 1 < s.len() && #[trigger] s[i] == '\n' ==> s[i + 1] == '\t' || s[i + 1]
            == ')'
}

proof fn lemma_tab_indented_concat(a: Seq<char>, b: Seq<char>)
    requires
        tab_indented(a),
        tab_indented(b),
        a.len() > 0 && b.len() > 0 && a.last() == '\n' ==> b[0] == '\t' || b[0] == ')',
    ensures
        tab_indented(a + b),
{
    let s = a + b;
    assert forall|i: int| 0 <= i && i + 1 < s.len() && #[trigger] s[i] == '\n' implies s[i + 1]
        == '\t' || s[i + 1] == ')' by {
        if i + 1 < a.len() {
            assert(a[i] == '\n');
        } else if i + 1 == a.len() {
            assert(a.last() == '\n' && s[i + 1] == b[0]);
        } else {
            assert(b[i - a.len()] == '\n');
        }
    }
}

/// Nothing in a quoted string breaks its line: newlines, carriage returns and
/// tabs are written as escapes.
pub proof fn escapes_leave_no_control_characters(contents: Seq<char>)
    ensures
        forall|i: int|
            0 <= i < escaped(contents).len() ==> {
                let c = #[trigger] escaped(contents)[i];
                c != '\n' && c != '\r' && c != '\t'
            },
    decreases contents.len(),
{
    if contents.len() > 0 {
        let unit = escaped_char(contents[0]);
        let tail = escaped(contents.skip(1));
        escapes_leave_no_control_characters(contents.skip(1));
        assert forall|i: int| 0 <= i < escaped(contents).len() implies {
            let c = #[trigger] escaped(contents)[i];
            c != '\n' && c != '\r' && c != '\t'
        } by {
            if i >= unit.len() {
                assert(escaped(contents)[i] == tail[i - unit.len()]);
            } else {
                assert(escaped(contents)[i] == unit[i]);
            }
        }
    }
}

proof fn lemma_text_tab_indented(node: Sexp, depth: nat)
    requires
        printable(node),
    ensures
        tab_indented(text(node, depth)),
        text(node, depth).len() > 0,
        text(node, depth).last() != '\n',
    decreases node, 0nat,
{
    lemma_text_start(node, depth);
    match node {
        Sexp::Atom(word) => {
            assert(!is_delimiter(word[word.len() - 1]));
        },
        Sexp::Str(contents) => {
            escapes_leave_no_control_characters(contents);
        },
        Sexp::List(children) => {
            if children.len() > 0 {
                lemma_children_tab_indented(children, depth, 0);
                let open = seq!['('];
                let inner = children_text(children, depth, 0);
                let end = closing(children, depth);
                lemma_tab_indented_concat(open, inner);
                lemma_tab_indented_concat(open + inner, end);
                assert(end.len() > 0 ==> (open + inner + end).last() == end.last());
                assert(depth > 0 && end.len() > 0 ==> end.last() == '\t');
                assert(inner.len() > 0 ==> (open + inner).last() == inner.last());
                lemma_tab_indented_concat(open + inner + end, seq![')']);
            }
        },
    }
}

proof fn lemma_children_tab_indented(children: Seq<Sexp>, depth: nat, k: int)
    requires
        0 <= k <= children.len(),
        forall|i: int| 0 <= i < children.len() ==> printable(#[trigger] children[i]),
    ensures
        tab_indented(children_text(children, depth, k)),
        children_text(children, depth, k).len() > 0 ==> children_text(children, depth, k).last()
            != '\n',
    decreases children, children.len() - k,
{
    if k < children.len() {
        let gap = separator(children, depth, k);
        let words = text(children[k], depth + 1);
        let more = children_text(children, depth, k + 1);
        assert(printable(children[k]));
        lemma_text_tab_indented(children[k], depth + 1);
        lemma_children_tab_indented(children, depth, k + 1);
        assert(tab_indented(gap));
        assert(gap.len() > 0 ==> gap.last() != '\n');
        lemma_tab_indented_concat(gap, words);
        assert((gap + words).last() == words.last());
        lemma_tab_indented_concat(gap + words, more);
        assert(more.len() > 0 ==> (gap + words + more).last() == more.last());
        assert(more.len() == 0 ==> gap + words + more =~= gap + words);
    }
}

/// Documents are indented with tabs, never with spaces, and hold no blank
/// line.
pub proof fn documents_are_tab_indented(node: Sexp)
    requires
        printable(node),
    ensures
        tab_indented(document(node)),
        document(node)[0] != ' ',
        document(node).last() == '\n',
{
    lemma_text_start(node, 0);
    lemma_text_tab_indented(node, 0);
    lemma_tab_indented_concat(text(node, 0), seq!['\n']);
    assert(document(node)[0] == text(node, 0)[0]);
}

/// The text of the children in front of the `k`-th, each with its separator.
pub open spec fn lead(children: Seq<Sexp>, depth: nat, k: int) -> Seq<char>
    decreases k,
{
    if k <= 0 {
        Seq::empty()
    } else {
        lead(children, depth, k - 1) + separator(children, depth, k - 1) + text(
            children[k - 1],
            depth + 1,
        )
    }
}

proof fn lemma_split(children: Seq<Sexp>, depth: nat, k: int)
    requires
        0 <= k <= children.len(),
    ensures
        children_text(children, depth, 0) == lead(children, depth, k) + children_text(
            children,
            depth,
            k,
        ),
    decreases k,
{
    if k == 0 {
        assert(lead(children, depth, 0) + children_text(children, depth, 0) =~= children_text(
            children,
            depth,
            0,
        ));
    } else {
        lemma_split(children, depth, k - 1);
        let gap = separator(children, depth, k - 1);
        let words = text(children[k - 1], depth + 1);
        let more = children_text(children, depth, k);
        assert(lead(children, depth, k - 1) + (gap + words + more) =~= lead(children, depth, k)
            + more);
    }
}

proof fn lemma_same_lead(a: Seq<Sexp>, b: Seq<Sexp>, depth: nat, k: int)
    requires
        0 <= k <= a.len(),
        k <= b.len(),
        forall|i: int| 0 <= i < k ==> #[trigger] a[i] == b[i],
        forall|i: int|
            0 <= i < k ==> #[trigger] separator(a, depth, i) == separator(b, depth, i),
    ensures
        lead(a, depth, k) == lead(b, depth, k),
    decreases k,
{
    if k > 0 {
        lemma_same_lead(a, b, depth, k - 1);
        assert(a[k - 1] == b[k - 1]);
        assert(separator(a, depth, k - 1) == separator(b, depth, k - 1));
    }
}

proof fn lemma_same_tail(a: Seq<Sexp>, b: Seq<Sexp>, depth: nat, i: int, shift: int)
    requires
        0 <= i <= a.len(),
        0 <= i + shift,
        a.len() + shift == b.len(),
        forall|j: int| i <= j < a.len() ==> #[trigger] a[j] == b[j + shift],
        forall|j: int|
            i <= j < a.len() ==> #[trigger] separator(a, depth, j) == separator(
                b,
                depth,
                j + shift,
            ),
    ensures
        children_text(a, depth, i) == children_text(b, depth, i + shift),
    decreases a.len() - i,
{
    if i < a.len() {
        lemma_same_tail(a, b, depth, i + 1, shift);
        assert(a[i] == b[i + shift]);
        assert(separator(a, depth, i) == separator(b, depth, i + shift));
    }
}

proof fn lemma_same_layout(children: Seq<Sexp>, depth: nat, k: int, node: Sexp)
    requires
        1 <= k < children.len(),
        depth == 0 || (node is List <==> children[k] is List),
    ensures
        layout(children, depth) == layout(children.update(k, node), depth),
{
    let edited = children.update(k, node);
    assert(edited[0] == children[0]);
    if depth > 0 {
        if exists|i: int| 1 <= i < children.len() && #[trigger] children[i] is List {
            let i = choose|i: int| 1 <= i < children.len() && #[trigger] children[i] is List;
            assert(edited[i] is List);
        }
        if exists|i: int| 1 <= i < edited.len() && #[trigger] edited[i] is List {
            let i = choose|i: int| 1 <= i < edited.len() && #[trigger] edited[i] is List;
            assert(children[i] is List);
        }
    }
}

proof fn lemma_same_count(children: Seq<Sexp>, k: int, node: Sexp, i: int)
    requires
        1 <= k < children.len(),
        node is List <==> children[k] is List,
        i <= children.len(),
    ensures
        lists_before(children, i) == lists_before(children.update(k, node), i),
    decreases i,
{
    if i > 1 {
        lemma_same_count(children, k, node, i - 1);
    }
}

/// `whole` is `middle` with `before` and `after` around it.
pub open spec fn framed(
    whole: Seq<char>,
    before: Seq<char>,
    middle: Seq<char>,
    after: Seq<char>,
) -> bool {
    whole == before + middle + after
}

/// Replacing a child leaves every character outside that child as it was. In
/// the root list any child may take another's place; in a list further in, a
/// list takes the place of a list and a scalar that of a scalar.
pub proof fn replacing_a_child_is_local(children: Seq<Sexp>, depth: nat, k: int, node: Sexp)
    requires
        1 <= k < children.len(),
        depth == 0 || (node is List <==> children[k] is List),
    ensures
        exists|before: Seq<char>, after: Seq<char>|
            {
                &&& #[trigger] framed(
                    text(Sexp::List(children), depth),
                    before,
                    text(children[k], depth + 1),
                    after,
                )
                &&& framed(
                    text(Sexp::List(children.update(k, node)), depth),
                    before,
                    text(node, depth + 1),
                    after,
                )
            },
{
    let edited = children.update(k, node);
    lemma_same_layout(children, depth, k, node);
    assert forall|i: int| 0 <= i < children.len() implies #[trigger] separator(children, depth, i)
        == separator(edited, depth, i) by {
        assert(i != k ==> edited[i] == children[i]);
        if depth > 0 {
            lemma_same_count(children, k, node, i);
        }
    }
    lemma_same_lead(children, edited, depth, k);
    lemma_same_tail(children, edited, depth, k + 1, 0);
    assert(closing(children, depth) == closing(edited, depth));
    lemma_list_frame(children, depth, k);
    lemma_list_frame(edited, depth, k);
    assert(edited[k] == node);
}

/// The text of a list around its `k`-th child.
proof fn lemma_list_frame(children: Seq<Sexp>, depth: nat, k: int)
    requires
        1 <= k < children.len(),
    ensures
        framed(
            text(Sexp::List(children), depth),
            seq!['('] + lead(children, depth, k) + separator(children, depth, k),
            text(children[k], depth + 1),
            children_text(children, depth, k + 1) + closing(children, depth) + seq![')'],
        ),
{
    lemma_split(children, depth, k);
    let start = lead(children, depth, k);
    let gap = separator(children, depth, k);
    let words = text(children[k], depth + 1);
    let more = children_text(children, depth, k + 1);
    let end = closing(children, depth);
    assert(seq!['('] + (start + (gap + words + more)) + end + seq![')'] =~= seq!['('] + start + gap
        + words + (more + end + seq![')']));
}

/// Adding an item to the root list adds its lines and changes nothing else;
/// read the other way round, so does removing one.
pub proof fn adding_an_item_is_local(children: Seq<Sexp>, k: int, node: Sexp)
    requires
        1 <= k <= children.len(),
    ensures
        exists|before: Seq<char>, after: Seq<char>|
            {
                &&& #[trigger] framed(
                    document(Sexp::List(children)),
                    before,
                    Seq::empty(),
                    after,
                )
                &&& framed(
                    document(Sexp::List(children.insert(k, node))),
                    before,
                    seq!['\n', '\t'] + text(node, 1),
                    after,
                )
            },
{
    let edited = children.insert(k, node);
    assert forall|i: int| 0 <= i < k implies #[trigger] children[i] == edited[i] by {}
    assert forall|j: int| k <= j < children.len() implies #[trigger] children[j] == edited[j + 1] by {}
    lemma_same_lead(children, edited, 0, k);
    lemma_same_tail(children, edited, 0, k, 1);
    lemma_split(children, 0, k);
    lemma_split(edited, 0, k);
    let before = seq!['('] + lead(children, 0, k);
    let after = children_text(children, 0, k) + closing(children, 0) + seq![')', '\n'];
    let whole = document(Sexp::List(children));
    let whole_edited = document(Sexp::List(edited));
    assert(edited[k] == node);
    assert(separator(edited, 0, k) =~= seq!['\n', '\t']);
    assert(whole =~= before + Seq::empty() + after);
    assert(whole_edited =~= before + (seq!['\n', '\t'] + text(node, 1)) + after);
    assert(framed(whole, before, Seq::empty(), after));
    assert(framed(whole_edited, before, seq!['\n', '\t'] + text(node, 1), after));
}

/// A list of scalars stays on one line, unless it is the root or an embedded
/// payload.
pub proof fn scalar_lists_stay_inline(children: Seq<Sexp>, depth: nat)
    requires
        printable(Sexp::List(children)),
        depth > 0,
        !(tag(children) == "data"@ && children.len() > 2),
        forall|i: int| 0 <= i < children.len() ==> !(#[trigger] children[i] is List),
    ensures
        !text(Sexp::List(children), depth).contains('\n'),
{
    if children.len() > 0 {
        let node = Sexp::List(children);
        assert(printable(node));
        assert(node->List_0 == children);
        lemma_scalars_inline(children, depth, 0);
        let inner = children_text(children, depth, 0);
        let s = text(Sexp::List(children), depth);
        assert forall|i: int| 0 <= i < s.len() implies s[i] != '\n' by {
            if 0 < i < s.len() - 1 {
                assert(s[i] == inner[i - 1]);
            }
        }
    }
}

proof fn lemma_scalars_inline(children: Seq<Sexp>, depth: nat, k: int)
    requires
        0 <= k <= children.len(),
        forall|i: int| 0 <= i < children.len() ==> printable(#[trigger] children[i]),
        layout(children, depth) is Flat,
        forall|i: int| 0 <= i < children.len() ==> !(#[trigger] children[i] is List),
    ensures
        forall|i: int|
            0 <= i < children_text(children, depth, k).len() ==> #[trigger] children_text(
                children,
                depth,
                k,
            )[i] != '\n',
    decreases children.len() - k,
{
    if k < children.len() {
        lemma_scalars_inline(children, depth, k + 1);
        let gap = separator(children, depth, k);
        let words = text(children[k], depth + 1);
        let more = children_text(children, depth, k + 1);
        assert(printable(children[k]));
        assert forall|i: int| 0 <= i < words.len() implies #[trigger] words[i] != '\n' by {
            match children[k] {
                Sexp::Str(contents) => {
                    escapes_leave_no_control_characters(contents);
                    if 0 < i < words.len() - 1 {
                        assert(words[i] == escaped(contents)[i - 1]);
                    }
                },
                _ => {},
            }
        }
        let s = gap + words + more;
        assert forall|i: int| 0 <= i < s.len() implies #[trigger] s[i] != '\n' by {
            if i >= gap.len() + words.len() {
                assert(s[i] == more[i - gap.len() - words.len()]);
            } else if i >= gap.len() {
                assert(s[i] == words[i - gap.len()]);
            }
        }
    }
}

/// Inside `pts`, a sub-list starts a line exactly when it is the first or
/// follows a full line of six; the sub-lists between share that line. Scalars
/// among them do not count.
pub proof fn points_wrap_after_six(children: Seq<Sexp>, depth: nat, k: int)
    requires
        depth > 0,
        tag(children) == "pts"@,
        1 <= k < children.len(),
        children[k] is List,
    ensures
        starts_line(children, depth, k) <==> lists_before(children, k) % 6 == 0,
        separator(children, depth, k) == if lists_before(children, k) % 6 == 0 {
            seq!['\n'] + tabs(depth + 1)
        } else {
            seq![' ']
        },
{
    reveal_strlit("pts");
    reveal_strlit("data");
    assert("pts"@.len() != "data"@.len());
}

/// An embedded payload keeps its first chunk on the line of the `data` tag and
/// gives each further chunk a line of its own.
pub proof fn payload_keeps_one_chunk_per_line(children: Seq<Sexp>, depth: nat, k: int)
    requires
        depth > 0,
        tag(children) == "data"@,
        children.len() > 2,
        1 <= k < children.len(),
    ensures
        separator(children, depth, k) == if k == 1 {
            seq![' ']
        } else {
            seq!['\n'] + tabs(depth + 1)
        },
{
}

/// No atom holds a line feed.
pub open spec fn atoms_keep_their_line(node: Sexp) -> bool
    decreases node,
{
    match node {
        Sexp::Atom(word) => !word.contains('\n'),
        Sexp::Str(_) => true,
        Sexp::List(children) => forall|i: int|
            0 <= i < children.len() ==> atoms_keep_their_line(#[trigger] children[i]),
    }
}

/// The same lines, each but the first indented by one more tab.
pub open spec fn deepened(s: Seq<char>) -> Seq<char>
    decreases s.len(),
{
    if s.len() == 0 {
        Seq::empty()
    } else if s[0] == '\n' {
        seq!['\n', '\t'] + deepened(s.skip(1))
    } else {
        seq![s[0]] + deepened(s.skip(1))
    }
}

proof fn lemma_deepened_concat(a: Seq<char>, b: Seq<char>)
    ensures
        deepened(a + b) == deepened(a) + deepened(b),
    decreases a.len(),
{
    if a.len() == 0 {
        assert(a + b =~= b);
    } else {
        lemma_deepened_concat(a.skip(1), b);
        assert((a + b).skip(1) =~= a.skip(1) + b);
    }
}

proof fn lemma_deepened_line(s: Seq<char>)
    requires
        forall|i: int| 0 <= i < s.len() ==> #[trigger] s[i] != '\n',
    ensures
        deepened(s) == s,
    decreases s.len(),
{
    if s.len() > 0 {
        lemma_deepened_line(s.skip(1));
        assert(seq![s[0]] + s.skip(1) =~= s);
    }
}

proof fn lemma_deepened_break(depth: nat)
    ensures
        deepened(seq!['\n'] + tabs(depth)) == seq!['\n'] + tabs(depth + 1),
{
    let s = seq!['\n'] + tabs(depth);
    assert(s.skip(1) =~= tabs(depth));
    lemma_deepened_line(tabs(depth));
    assert(seq!['\n', '\t'] + tabs(depth) =~= seq!['\n'] + tabs(depth + 1));
}

proof fn lemma_children_deepened(children: Seq<Sexp>, depth: nat, k: int)
    requires
        depth >= 1,
        0 <= k <= children.len(),
        forall|i: int| 0 <= i < children.len() ==> atoms_keep_their_line(#[trigger] children[i]),
    ensures
        children_text(children, depth + 1, k) == deepened(children_text(children, depth, k)),
    decreases children, children.len() - k,
{
    if k < children.len() {
        let gap = separator(children, depth, k);
        let words = text(children[k], depth + 1);
        let more = children_text(children, depth, k + 1);
        assert(atoms_keep_their_line(children[k]));
        deeper_nesting_adds_one_tab(children[k], depth + 1);
        lemma_children_deepened(children, depth, k + 1);
        assert(deepened(gap) == separator(children, depth + 1, k)) by {
            lemma_deepened_break(depth + 1);
            if gap.len() < 2 {
                lemma_deepened_line(gap);
            }
        }
        lemma_deepened_concat(gap, words);
        lemma_deepened_concat(gap + words, more);
    }
}

/// Inside the root list, one level more of nesting adds one tab to each line of a
/// node but the first, and changes nothing else.
pub proof fn deeper_nesting_adds_one_tab(node: Sexp, depth: nat)
    requires
        depth >= 1,
        atoms_keep_their_line(node),
    ensures
        text(node, depth + 1) == deepened(text(node, depth)),
    decreases node, 0nat,
{
    match node {
        Sexp::Atom(word) => {
            lemma_deepened_line(word);
        },
        Sexp::Str(contents) => {
            escapes_leave_no_control_characters(contents);
            lemma_deepened_line(text(node, depth));
        },
        Sexp::List(children) => {
            if children.len() == 0 {
                lemma_deepened_line(text(node, depth));
            } else {
                let open = seq!['('];
                let inner = children_text(children, depth, 0);
                let end = closing(children, depth);
                lemma_children_deepened(children, depth, 0);
                lemma_deepened_line(open);
                lemma_deepened_line(seq![')']);
                assert(deepened(end) == closing(children, depth + 1)) by {
                    lemma_deepened_break(depth);
                }
                lemma_deepened_concat(open, inner);
                lemma_deepened_concat(open + inner, end);
                lemma_deepened_concat(open + inner + end, seq![')']);
            }
        },
    }
}

} // verus!
