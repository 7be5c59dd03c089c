use inform::buffer::IoBuffer;
use inform::common::IndentWrite;
use inform::common::IndentWriterCommon;
use inform::io::IndentWriter;

fn collect(buf: &IoBuffer) -> String {
    buf.as_chars().iter().collect()
}

fn write_text(f: &mut IndentWriter<IoBuffer>) -> Result<(), std::io::Error> {
    f.write(b"hello\ngoodbye\n")?;
    f.increase_indent();
    f.write(b"hello\ngoodbye\n")?;
    f.decrease_indent();
    f.write(b"hello\ngoodbye\n")?;
    Ok(())
}

#[test]
fn io_test_indent_writer() {
    let mut f = IndentWriter::new(IoBuffer::new(), 2);
    write_text(&mut f).expect("failed to format");
    assert_eq!(
        "hello\ngoodbye\n  hello\n  goodbye\nhello\ngoodbye\n",
        collect(&f.into_inner())
    );
}

#[test]
fn io_write_reports_whole_length() {
    let mut f = IndentWriter::new(IoBuffer::new(), 2);
    let n = f.write(b"ab\ncd").unwrap();
    assert_eq!(n, 5);
    assert_eq!("ab\ncd", collect(&f.into_inner()));
}

#[test]
fn io_write_multibyte_text() {
    let mut f = IndentWriter::new(IoBuffer::new(), 2);
    f.increase_indent();
    f.write("caf\u{e9}\n\u{1f600}!\n".as_bytes()).unwrap();
    assert_eq!("caf\u{e9}\n  \u{1f600}!\n", collect(&f.into_inner()));
}

#[test]
fn io_write_invalid_utf8_fails_and_writes_nothing() {
    let mut f = IndentWriter::new(IoBuffer::new(), 2);
    let r = f.write(&[0xC3, 0x28]);
    assert!(r.is_err());
    let r2 = f.write(&[0xFF]);
    assert!(r2.is_err());
    f.write(b"ok\n").unwrap();
    assert_eq!("ok\n", collect(&f.into_inner()));
}

#[test]
fn io_flush_changes_nothing() {
    let mut f = IndentWriter::new(IoBuffer::new(), 2);
    f.write(b"a\n").unwrap();
    f.increase_indent();
    f.flush().unwrap();
    f.write(b"b\n").unwrap();
    assert_eq!("a\n  b\n", collect(&f.into_inner()));
}

#[test]
fn io_with_raw_buffer_bypasses_indentation() {
    let mut f = IndentWriter::new(IoBuffer::new(), 2);
    f.write(b"a\n").unwrap();
    f.increase_indent();
    let n = f.with_raw_buffer(|buf: &mut IoBuffer| {
        buf.write_str("[raw]").unwrap();
        5usize
    });
    assert_eq!(n, 5);
    // The raw write bypassed the engine: no indentation was inserted before
    // it, and the pending state survives for the next indented write.
    f.write(b"x\n").unwrap();
    assert_eq!("a\n[raw]  x\n", collect(&f.into_inner()));
}

#[test]
fn io_empty_write_is_ok_and_emits_nothing() {
    let mut f = IndentWriter::new(IoBuffer::new(), 2);
    f.increase_indent();
    let n = f.write(b"").unwrap();
    assert_eq!(n, 0);
    assert_eq!("", collect(f.sink_ref()));
}

#[test]
fn io_sink_ref_observes_without_consuming() {
    let mut f = IndentWriter::new(IoBuffer::new(), 2);
    f.write(b"a\n").unwrap();
    assert_eq!("a\n", collect(f.sink_ref()));
    f.increase_indent();
    f.write(b"b\n").unwrap();
    assert_eq!("a\n  b\n", collect(f.sink_ref()));
    assert_eq!("a\n  b\n", collect(&f.into_inner()));
}
