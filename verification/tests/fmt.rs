use inform::buffer::FmtBuffer;
use inform::common::IndentWriterCommon;
use inform::fmt::IndentWriter;

fn collect(buf: &FmtBuffer) -> String {
    buf.as_chars().iter().collect()
}

fn write_text(f: &mut IndentWriter<FmtBuffer>) -> Result<(), core::fmt::Error> {
    f.write_str("hello\ngoodbye\n")?;
    f.increase_indent();
    f.write_str("hello\ngoodbye\n")?;
    f.decrease_indent();
    f.write_str("hello\ngoodbye\n")
}

#[test]
fn fmt_test_indent_writer() {
    let mut f = IndentWriter::new(FmtBuffer::new(), 2);
    write_text(&mut f).expect("failed to format");
    assert_eq!(
        "hello\ngoodbye\n  hello\n  goodbye\nhello\ngoodbye\n",
        collect(&f.into_inner())
    );
}

fn format_nested() -> String {
    let mut f = IndentWriter::new(FmtBuffer::new(), 2);
    f.write_str("hello\ngoodbye\n").unwrap();
    f.increase_indent();
    f.write_str("hello\ngoodbye\n").unwrap();
    f.decrease_indent();
    f.write_str("hello\ngoodbye\n").unwrap();
    collect(&f.into_inner())
}

#[test]
fn test_indent_formatter() {
    assert_eq!(
        "hello\ngoodbye\n  hello\n  goodbye\nhello\ngoodbye\n",
        format_nested()
    );
}
