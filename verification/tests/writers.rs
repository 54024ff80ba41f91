use fsw::writer::{BufWriter, WriteError, WriteWrapper};

#[test]
fn buf_writer_keeps_what_fits() {
    let mut w = BufWriter::new(vec![0u8; 5]);
    assert_eq!(w.write_str("abc"), Ok(()));
    assert_eq!(w.offset(), 3);
    assert_eq!(w.write_str("defg"), Err(WriteError));
    assert_eq!(w.offset(), 5);
    assert_eq!(w.written(), b"abcde");
    assert_eq!(w.write_str(""), Ok(()));
    assert_eq!(w.write_str("x"), Err(WriteError));
}

#[test]
fn write_wrapper_refuses_what_does_not_fit() {
    let mut w = WriteWrapper::new(vec![0u8; 5]);
    assert_eq!(w.write_str("abc"), Ok(()));
    assert_eq!(w.write_str("def"), Err(WriteError));
    assert_eq!(w.offset(), 3);
    assert_eq!(w.written(), b"abc");
    assert_eq!(w.write_str("de"), Ok(()));
    assert_eq!(w.written(), b"abcde");
    assert_eq!(w.write_bytes(&[]), Ok(()));
}
