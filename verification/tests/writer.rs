//! The writer against the shapes that eeschema emits.

use konnect::sexp::{parser, writer};

/// Every construct whose formatting differs between writers, in the exact
/// shape eeschema emits: tab indent, a closing paren on its own line for
/// any multi-line list, `pts` points sharing a line and wrapping after six,
/// an embedded-file payload split one base64 chunk per line, and all-scalar
/// lists staying inline.
const EESCHEMA_SHAPED: &str = "(kicad_sch\n\t(version 20260306)\n\t(paper \"A2\")\n\t(wire\n\t\t(pts\n\t\t\t(xy 45.72 325.12) (xy 60.96 325.12)\n\t\t)\n\t\t(uuid \"w-1\")\n\t)\n\t(polyline\n\t\t(pts\n\t\t\t(xy 0 0) (xy 1 1) (xy 2 2) (xy 3 3) (xy 4 4) (xy 5 5)\n\t\t\t(xy 6 6) (xy 7 7)\n\t\t)\n\t)\n\t(label \"DRO_CLK\"\n\t\t(at 99.06 335.28 270)\n\t\t(effects\n\t\t\t(font\n\t\t\t\t(size 1.27 1.27)\n\t\t\t)\n\t\t\t(justify right)\n\t\t)\n\t\t(uuid \"l-1\")\n\t)\n\t(embedded_files\n\t\t(file\n\t\t\t(name \"d.pdf\")\n\t\t\t(data |QUJD\n\t\t\t\tREVG\n\t\t\t\tR0hJ|\n\t\t\t)\n\t\t)\n\t)\n)\n";

/// A schematic KiCad saved must survive an edit byte-for-byte apart from the
/// edit itself.
#[test]
fn round_trip_reproduces_eeschema_formatting_byte_for_byte() {
    let parsed = parser::parse(EESCHEMA_SHAPED).expect("fixture parses");
    let written = writer::write(&parsed);

    assert_eq!(
        written, EESCHEMA_SHAPED,
        "writer output drifted from eeschema's formatting"
    );
}

#[test]
fn indents_with_tabs_and_never_spaces() {
    let parsed = parser::parse(EESCHEMA_SHAPED).expect("fixture parses");
    let written = writer::write(&parsed);

    assert!(
        !written.lines().any(|l| l.starts_with(' ')),
        "a space-indented line would re-indent the whole file on save"
    );
}

#[test]
fn a_long_pts_wraps_after_six_points() {
    let parsed = parser::parse(EESCHEMA_SHAPED).expect("fixture parses");
    let written = writer::write(&parsed);

    let counts: Vec<usize> = written
        .lines()
        .map(|l| l.matches("(xy ").count())
        .filter(|n| *n > 0)
        .collect();

    assert_eq!(
        counts,
        vec![2, 6, 2],
        "expected the wire's 2 points, then 6 + 2 for the wrapped polyline"
    );
}

#[test]
fn an_embedded_payload_keeps_one_chunk_per_line() {
    let parsed = parser::parse(EESCHEMA_SHAPED).expect("fixture parses");
    let written = writer::write(&parsed);

    assert!(
        written.contains("(data |QUJD\n"),
        "the first base64 chunk stays on the (data line"
    );
    assert!(
        !written.contains("QUJD REVG"),
        "chunks joined onto one line rewrite every line of an embedded file"
    );
}

#[test]
fn an_empty_list_stays_inline() {
    let parsed = parser::parse("(kicad_sch\n\t(a)\n)\n").expect("parses");
    assert_eq!(writer::write(&parsed), "(kicad_sch\n\t(a)\n)\n");
}
