use ustd::io::{lf_to_crlf, stdout, STDOUT_BUFFER_SIZE};

#[test]
fn lf_expands_to_crlf() {
    assert_eq!(lf_to_crlf(b"a\nb"), vec![b'a', b'\r', b'\n', b'b']);
    assert_eq!(lf_to_crlf(b"\n\n"), vec![b'\r', b'\n', b'\r', b'\n']);
    assert_eq!(lf_to_crlf(b"plain"), b"plain".to_vec());
    assert_eq!(lf_to_crlf(b""), Vec::<u8>::new());
}

#[test]
fn write_bytes_ships_expanded_text() {
    let mut out = stdout();
    out.write_bytes(b"hi\n");
    assert_eq!(out.drain_shipped(), b"hi\r\n".to_vec());
    out.write_bytes(b"more");
    out.write_bytes(b"text\n");
    assert_eq!(out.drain_shipped(), b"moretext\r\n".to_vec());
}

#[test]
fn buffer_ships_when_full() {
    let mut out = stdout();
    for _ in 0..STDOUT_BUFFER_SIZE - 1 {
        out.write_byte(b'x');
    }
    // Nothing shipped yet: the buffer is one short of the threshold.
    assert_eq!(out.drain_shipped(), Vec::<u8>::new());
    out.write_byte(b'y');
    let shipped = out.drain_shipped();
    assert_eq!(shipped.len(), STDOUT_BUFFER_SIZE);
    assert_eq!(shipped[STDOUT_BUFFER_SIZE - 1], b'y');
}

#[test]
fn flush_ships_partial_buffers() {
    let mut out = stdout();
    out.write_byte(b'a');
    out.write_byte(b'b');
    assert_eq!(out.drain_shipped(), Vec::<u8>::new());
    out.flush();
    assert_eq!(out.drain_shipped(), vec![b'a', b'b']);
    out.flush();
    assert_eq!(out.drain_shipped(), Vec::<u8>::new());
}
