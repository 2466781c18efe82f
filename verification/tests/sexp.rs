//! Edges of the notation, and what writer and parser promise together.

use konnect::sexp::parser::ParseError;
use konnect::sexp::{parser, writer, SexpNode};

fn atom(s: &str) -> SexpNode {
    SexpNode::Atom(s.to_string())
}

fn quoted(s: &str) -> SexpNode {
    SexpNode::Str(s.to_string())
}

fn list(children: Vec<SexpNode>) -> SexpNode {
    SexpNode::List(children)
}

fn point(n: usize) -> SexpNode {
    list(vec![atom("xy"), atom(&n.to_string()), atom(&n.to_string())])
}

#[test]
fn scalars_are_written_on_a_line() {
    assert_eq!(writer::write(&atom("word")), "word\n");
    assert_eq!(writer::write(&quoted("two words")), "\"two words\"\n");
    assert_eq!(writer::write(&list(vec![])), "()\n");
}

#[test]
fn strings_are_escaped() {
    let node = quoted("a\"b\\c\nd\te\rf");
    assert_eq!(writer::write(&node), "\"a\\\"b\\\\c\\nd\\te\\rf\"\n");
}

#[test]
fn other_characters_are_written_as_they_are() {
    let node = quoted("\u{b5}F \u{2126} 'x' (y)");
    assert_eq!(writer::write(&node), "\"\u{b5}F \u{2126} 'x' (y)\"\n");
    assert_eq!(parser::parse(&writer::write(&node)), Ok(node));
}

#[test]
fn the_root_gives_every_child_a_line() {
    let node = list(vec![atom("root"), atom("a"), quoted("b"), list(vec![])]);
    assert_eq!(writer::write(&node), "(root\n\ta\n\t\"b\"\n\t()\n)\n");
}

#[test]
fn a_root_of_one_child_still_breaks_its_line() {
    assert_eq!(writer::write(&list(vec![atom("root")])), "(root\n)\n");
}

#[test]
fn scalars_stay_behind_the_tag_of_a_nested_list() {
    let node = list(vec![
        atom("root"),
        list(vec![
            atom("label"),
            quoted("A"),
            list(vec![atom("at"), atom("1"), atom("2")]),
            atom("hide"),
        ]),
    ]);
    assert_eq!(
        writer::write(&node),
        "(root\n\t(label \"A\"\n\t\t(at 1 2) hide\n\t)\n)\n"
    );
}

#[test]
fn a_list_in_front_of_scalars_is_no_reason_to_wrap() {
    let node = list(vec![
        atom("root"),
        list(vec![list(vec![atom("a")]), atom("b")]),
    ]);
    assert_eq!(writer::write(&node), "(root\n\t((a) b)\n)\n");
}

#[test]
fn thirteen_points_take_three_lines() {
    let mut children = vec![atom("pts")];
    for n in 0..13 {
        children.push(point(n));
    }
    let node = list(vec![atom("root"), list(children)]);
    assert_eq!(
        writer::write(&node),
        "(root\n\t(pts\n\t\t(xy 0 0) (xy 1 1) (xy 2 2) (xy 3 3) (xy 4 4) (xy 5 5)\n\t\t(xy 6 6) \
         (xy 7 7) (xy 8 8) (xy 9 9) (xy 10 10) (xy 11 11)\n\t\t(xy 12 12)\n\t)\n)\n"
    );
}

#[test]
fn a_scalar_among_points_does_not_count_for_the_wrap() {
    let mut children = vec![atom("pts"), atom("a")];
    for n in 0..7 {
        children.push(point(n));
    }
    let node = list(vec![atom("root"), list(children)]);
    assert_eq!(
        writer::write(&node),
        "(root\n\t(pts a\n\t\t(xy 0 0) (xy 1 1) (xy 2 2) (xy 3 3) (xy 4 4) (xy 5 5)\n\t\t(xy 6 6)\n\t)\n)\n"
    );
}

#[test]
fn a_scalar_between_points_stays_on_their_line() {
    let children = vec![atom("pts"), point(0), atom("a"), point(1)];
    let node = list(vec![atom("root"), list(children)]);
    assert_eq!(
        writer::write(&node),
        "(root\n\t(pts\n\t\t(xy 0 0) a (xy 1 1)\n\t)\n)\n"
    );
}

#[test]
fn a_quoted_tag_is_no_tag() {
    let pts = list(vec![quoted("pts"), point(0), point(1)]);
    assert_eq!(
        writer::write(&list(vec![atom("root"), pts])),
        "(root\n\t(\"pts\"\n\t\t(xy 0 0)\n\t\t(xy 1 1)\n\t)\n)\n"
    );
    let data = list(vec![quoted("data"), atom("a"), atom("b")]);
    assert_eq!(
        writer::write(&list(vec![atom("root"), data])),
        "(root\n\t(\"data\" a b)\n)\n"
    );
}

#[test]
fn a_payload_of_one_chunk_stays_inline() {
    let data = list(vec![atom("data"), atom("|QUJD|")]);
    assert_eq!(
        writer::write(&list(vec![atom("root"), data])),
        "(root\n\t(data |QUJD|)\n)\n"
    );
}

#[test]
fn a_payload_at_the_root_is_laid_out_as_a_root() {
    let data = list(vec![atom("data"), atom("a"), atom("b")]);
    assert_eq!(writer::write(&data), "(data\n\ta\n\tb\n)\n");
}

#[test]
fn white_space_around_nodes_is_skipped() {
    assert_eq!(
        parser::parse(" \t\r\n( a\n\n\"b\"(c)\t) \n"),
        Ok(list(vec![atom("a"), quoted("b"), list(vec![atom("c")])]))
    );
}

#[test]
fn escapes_are_undone() {
    assert_eq!(
        parser::parse("\"a\\\"b\\\\c\\nd\\te\\rf\""),
        Ok(quoted("a\"b\\c\nd\te\rf"))
    );
}

#[test]
fn an_unknown_escape_keeps_both_characters() {
    assert_eq!(parser::parse("\"\\q\""), Ok(quoted("\\q")));
}

#[test]
fn a_quote_ends_an_atom() {
    assert_eq!(
        parser::parse("(a\"b\"c)"),
        Ok(list(vec![atom("a"), quoted("b"), atom("c")]))
    );
}

#[test]
fn an_empty_text_ends_too_early() {
    assert_eq!(parser::parse(""), Err(ParseError::UnexpectedEnd));
    assert_eq!(parser::parse(" \n"), Err(ParseError::UnexpectedEnd));
}

#[test]
fn an_open_list_ends_too_early() {
    assert_eq!(parser::parse("(a (b)"), Err(ParseError::UnexpectedEnd));
}

#[test]
fn a_closing_paren_is_no_node() {
    assert_eq!(parser::parse(")"), Err(ParseError::UnexpectedClose));
}

#[test]
fn an_open_string_is_refused() {
    assert_eq!(parser::parse("\"abc"), Err(ParseError::UnterminatedString));
    assert_eq!(parser::parse("(a \"b\\"), Err(ParseError::UnterminatedString));
}

#[test]
fn only_white_space_may_follow() {
    assert_eq!(parser::parse("(a) b"), Err(ParseError::TrailingText));
    assert_eq!(parser::parse("(a))"), Err(ParseError::TrailingText));
}

#[test]
fn what_was_written_is_read_back() {
    let node = list(vec![
        atom("kicad_sch"),
        list(vec![atom("title"), quoted("a \"b\"\n\\c")]),
        list(vec![atom("pts"), point(1), point(2)]),
        list(vec![atom("data"), atom("|a"), atom("b"), atom("c|")]),
        list(vec![]),
    ]);
    assert_eq!(parser::parse(&writer::write(&node)), Ok(node));
}

#[test]
fn a_second_write_changes_nothing() {
    let loose = "( kicad_sch (version\n20260306) (paper   \"A2\") )";
    let once = writer::write(&parser::parse(loose).expect("parses"));
    assert_eq!(once, "(kicad_sch\n\t(version 20260306)\n\t(paper \"A2\")\n)\n");
    assert_eq!(writer::write(&parser::parse(&once).expect("parses")), once);
}

#[test]
fn an_edit_changes_only_its_own_line() {
    let before = "(kicad_sch\n\t(version 1)\n\t(paper \"A2\")\n\t(uuid \"u\")\n)\n";
    let mut node = parser::parse(before).expect("parses");
    if let SexpNode::List(children) = &mut node {
        children[2] = list(vec![atom("paper"), quoted("A4")]);
    }
    assert_eq!(
        writer::write(&node),
        "(kicad_sch\n\t(version 1)\n\t(paper \"A4\")\n\t(uuid \"u\")\n)\n"
    );
}

#[test]
fn an_added_item_adds_its_lines_only() {
    let mut node = parser::parse("(kicad_sch\n\t(version 1)\n\t(uuid \"u\")\n)\n").expect("parses");
    if let SexpNode::List(children) = &mut node {
        children.insert(2, list(vec![atom("wire"), list(vec![atom("pts"), point(0), point(1)])]));
    }
    assert_eq!(
        writer::write(&node),
        "(kicad_sch\n\t(version 1)\n\t(wire\n\t\t(pts\n\t\t\t(xy 0 0) (xy 1 1)\n\t\t)\n\t)\n\t(uuid \"u\")\n)\n"
    );
}

#[test]
fn only_lists_are_lists() {
    assert!(list(vec![]).is_list());
    assert!(!atom("a").is_list());
    assert!(!quoted("a").is_list());
}

#[test]
fn an_escaped_backslash_does_not_start_another_escape() {
    let path = quoted("C:\\new\\table");
    assert_eq!(parser::parse("\"C:\\\\new\\\\table\""), Ok(quoted("C:\\new\\table")));
    assert_eq!(writer::write(&path), "\"C:\\\\new\\\\table\"\n");
    assert_eq!(parser::parse(&writer::write(&path)), Ok(path));
}

#[test]
fn a_word_and_a_string_are_written_differently() {
    assert_ne!(writer::write(&atom("a")), writer::write(&quoted("a")));
    assert_ne!(
        writer::write(&list(vec![atom("a"), atom("b")])),
        writer::write(&list(vec![atom("a"), list(vec![atom("b")])]))
    );
}

#[test]
fn a_node_is_appended_to_what_is_there() {
    let mut buf = "before ".to_string();
    let node = list(vec![atom("wire"), list(vec![atom("at"), atom("1")])]);
    writer::write_node(&node, &mut buf, "\t");
    assert_eq!(buf, "before (wire\n\t\t(at 1)\n\t)");
}

#[test]
fn one_level_deeper_adds_one_tab_to_each_further_line() {
    let node = list(vec![
        atom("symbol"),
        list(vec![atom("pts"), point(0), point(1)]),
        list(vec![atom("data"), atom("|a"), atom("b|")]),
        quoted("x\ny"),
    ]);
    let mut shallow = String::new();
    writer::write_node(&node, &mut shallow, "\t");
    let mut deep = String::new();
    writer::write_node(&node, &mut deep, "\t\t");
    assert_eq!(deep, shallow.replace("\n", "\n\t"));
    assert_ne!(deep, shallow);
}
