use inform::buffer::FmtBuffer;
use inform::common::IndentWriterCommon;
use inform::fmt::IndentWriter;

fn collect(buf: &FmtBuffer) -> String {
    buf.as_chars().iter().collect()
}

#[test]
fn indent_takes_effect_before_or_after_the_break() {
    // step = 4: two increases while a break is pending, a decrease between
    // lines; each line gets the indentation current when its first
    // character is written.
    let mut f = IndentWriter::new(FmtBuffer::new(), 4);
    f.write_str("p\n").unwrap();
    f.increase_indent();
    f.increase_indent();
    f.write_str("x\n").unwrap();
    f.decrease_indent();
    f.write_str("y\n").unwrap();
    assert_eq!("p\n        x\n    y\n", collect(&f.into_inner()));
}

#[test]
fn stream_starts_without_pending_indentation() {
    // The very first character of the stream follows no line break, so no
    // indentation is emitted before it even at a positive nesting level.
    let mut f = IndentWriter::new(FmtBuffer::new(), 4);
    f.increase_indent();
    f.write_str("x\ny\n").unwrap();
    assert_eq!("x\n    y\n", collect(&f.into_inner()));
}

#[test]
fn zero_step_renders_no_indentation() {
    let mut f = IndentWriter::new(FmtBuffer::new(), 0);
    f.increase_indent();
    f.increase_indent();
    f.decrease_indent();
    f.increase_indent();
    f.write_str("a\nb\n").unwrap();
    f.decrease_indent();
    f.write_str("c\n").unwrap();
    assert_eq!("a\nb\nc\n", collect(&f.into_inner()));
}

#[test]
fn empty_write_emits_nothing_and_keeps_state() {
    let mut f = IndentWriter::new(FmtBuffer::new(), 2);
    f.write_str("a\n").unwrap();
    f.increase_indent();
    f.write_str("").unwrap();
    // The pending line break is still pending: the next character gets the
    // full indentation exactly once.
    f.write_str("b").unwrap();
    assert_eq!("a\n  b", collect(&f.into_inner()));
}

#[test]
fn empty_write_alone_emits_nothing() {
    let mut f = IndentWriter::new(FmtBuffer::new(), 2);
    f.increase_indent();
    f.write_str("").unwrap();
    assert_eq!("", collect(&f.into_inner()));
}

#[test]
fn single_call_equals_per_line_calls() {
    let mut one = IndentWriter::new(FmtBuffer::new(), 2);
    one.increase_indent();
    one.write_str("\nA\nB\nC").unwrap();
    one.decrease_indent();
    one.write_str("\nD").unwrap();
    let out_one = collect(&one.into_inner());

    let mut many = IndentWriter::new(FmtBuffer::new(), 2);
    many.increase_indent();
    many.write_str("\n").unwrap();
    many.write_str("A\n").unwrap();
    many.write_str("B\n").unwrap();
    many.write_str("C").unwrap();
    many.decrease_indent();
    many.write_str("\n").unwrap();
    many.write_str("D").unwrap();
    let out_many = collect(&many.into_inner());

    assert_eq!(out_one, out_many);
    assert_eq!("\n  A\n  B\n  C\nD", out_one);
}

#[test]
fn no_trailing_indent_after_final_break() {
    let mut f = IndentWriter::new(FmtBuffer::new(), 3);
    f.increase_indent();
    f.write_str("a\n").unwrap();
    // Output ends at the line break: no indentation follows it.
    assert_eq!("a\n", collect(&f.into_inner()));
}

#[test]
fn indentation_tracks_nesting_level() {
    let mut f = IndentWriter::new(FmtBuffer::new(), 3);
    f.write_str("a\n").unwrap();
    f.increase_indent();
    f.increase_indent();
    f.write_str("b\n").unwrap();
    f.decrease_indent();
    f.write_str("c\n").unwrap();
    assert_eq!("a\n      b\n   c\n", collect(&f.into_inner()));
}

#[test]
fn write_char_inserts_indent_once_per_line() {
    let mut f = IndentWriter::new(FmtBuffer::new(), 2);
    f.increase_indent();
    f.write_char('a').unwrap();
    f.write_char('\n').unwrap();
    f.write_char('b').unwrap();
    f.write_char('c').unwrap();
    assert_eq!("a\n  bc", collect(&f.into_inner()));
}

#[test]
fn every_character_written_while_pending_is_indented() {
    // A line break written while indentation is pending is itself preceded
    // by the indent, like any other character; only a break that directly
    // follows content on the same line gets none.
    let mut f = IndentWriter::new(FmtBuffer::new(), 2);
    f.increase_indent();
    f.write_str("a\n\nb\n").unwrap();
    assert_eq!("a\n  \n  b\n", collect(&f.into_inner()));
}
