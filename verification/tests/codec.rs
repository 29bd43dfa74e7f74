//! The cursor and the sink.

use dlms_cosem::codec::{CountingWriter, ErrorKind, Reader, Result, SliceWriter, Writer};

#[test]
fn short_and_long_lengths_round_trip() {
    for len in [0usize, 1, 0x7f, 0x80, 0xff, 0x100, 0xffff, 0x1_0000, 0x00ff_ffff] {
        let mut buf = [0u8; 8];
        let mut w = SliceWriter::new(&mut buf);
        w.write_length(len).unwrap();
        let n = w.written();
        let mut r = Reader::new(&buf[..n]);
        assert_eq!(r.length().unwrap(), len, "length {len}");
        assert!(r.is_empty());
    }
}

#[test]
fn length_form_is_the_shortest_one() {
    let mut buf = [0u8; 8];
    let mut w = SliceWriter::new(&mut buf);
    w.write_length(0x7f).unwrap();
    assert_eq!(w.as_slice(), [0x7f]);
    let mut w = SliceWriter::new(&mut buf);
    w.write_length(0x80).unwrap();
    assert_eq!(w.as_slice(), [0x81, 0x80]);
    let mut w = SliceWriter::new(&mut buf);
    w.write_length(0x1234).unwrap();
    assert_eq!(w.as_slice(), [0x82, 0x12, 0x34]);
}

#[test]
fn indefinite_and_oversized_lengths_are_refused() {
    assert_eq!(Reader::new(&[0x80]).length().unwrap_err().kind, ErrorKind::InvalidLength);
    assert_eq!(Reader::new(&[0x85, 1, 2, 3, 4, 5]).length().unwrap_err().kind, ErrorKind::InvalidLength);
}

#[test]
fn truncation_reports_what_it_needed_and_where() {
    let mut r = Reader::new(&[0x01, 0x02]);
    r.u8().unwrap();
    let e = r.u32().unwrap_err();
    assert_eq!(e.kind, ErrorKind::Truncated { needed: 3 });
    assert_eq!(e.offset, 1);
    assert!(e.is_truncated());
}

#[test]
fn a_failed_read_does_not_move_the_cursor() {
    let mut r = Reader::new(&[0xaa]);
    assert!(r.u16().is_err());
    assert_eq!(r.offset(), 0);
    assert_eq!(r.u8().unwrap(), 0xaa);
}

#[test]
fn nested_readers_report_offsets_in_the_outer_frame() {
    let frame = [0xff, 0xff, 0x00, 0x1b];
    let mut r = Reader::new(&frame);
    r.skip(2).unwrap();
    let e = r
        .nested(2, |inner| -> Result<()> {
            inner.u8()?;
            Err(inner.err(ErrorKind::InvalidTag(0x1b)))
        })
        .unwrap_err();
    assert_eq!(e.offset, 3, "offset is into the outer frame, not the slice");
}

#[test]
fn nested_refuses_a_decoder_that_leaves_bytes() {
    let mut r = Reader::new(&[1, 2, 3, 4]);
    let e = r.nested(4, |inner| inner.u8()).unwrap_err();
    assert_eq!(e.kind, ErrorKind::InvalidLength);
}

#[test]
fn slice_writer_reports_the_shortfall() {
    let mut buf = [0u8; 2];
    let mut w = SliceWriter::new(&mut buf);
    let e = w.write_bytes(&[1, 2, 3, 4]).unwrap_err();
    assert_eq!(e.kind, ErrorKind::BufferTooSmall { needed: 2 });
}

#[test]
fn truncating_discards_only_what_came_after() {
    let mut buf = [0u8; 16];
    let mut w = SliceWriter::new(&mut buf);
    w.write_bytes(&[1, 2, 3]).unwrap();
    let mark = w.written();
    w.write_bytes(&[9, 9, 9, 9]).unwrap();
    w.truncate(mark).unwrap();
    assert_eq!(w.as_slice(), [1, 2, 3]);
    // And writing continues from there, over what was discarded.
    w.write_bytes(&[4]).unwrap();
    assert_eq!(w.as_slice(), [1, 2, 3, 4]);
}

#[test]
fn truncating_forward_is_refused_rather_than_extending() {
    // Otherwise it would hand back whatever the caller's buffer happened to hold.
    let mut buf = [0xAAu8; 16];
    let mut w = SliceWriter::new(&mut buf);
    w.write_bytes(&[1, 2]).unwrap();
    assert_eq!(w.truncate(5).unwrap_err().kind, ErrorKind::InvalidLength);
    assert_eq!(w.as_slice(), [1, 2], "and leaves the position where it was");
    assert!(w.truncate(0).is_ok());
    assert!(w.as_slice().is_empty());
}

#[test]
fn counting_writer_agrees_with_a_real_one() {
    let mut buf = [0u8; 16];
    let mut w = SliceWriter::new(&mut buf);
    w.write_length_prefixed(&[1, 2, 3]).unwrap();
    let mut c = CountingWriter::default();
    c.write_length_prefixed(&[1, 2, 3]).unwrap();
    assert_eq!(c.count(), w.written());
}

#[test]
fn the_longest_length_is_written_and_read_back() {
    let mut buf = [0u8; 5];
    let mut w = SliceWriter::new(&mut buf);
    w.write_length(0xFFFF_FFFF).unwrap();
    assert_eq!(w.as_slice(), [0x84, 0xFF, 0xFF, 0xFF, 0xFF]);
    let mut r = Reader::new(w.as_slice());
    assert_eq!(r.length().unwrap(), 0xFFFF_FFFF);
    assert!(r.is_empty());
    if usize::BITS > 32 {
        let mut buf = [0u8; 16];
        let mut w = SliceWriter::new(&mut buf);
        assert_eq!(w.write_length(0xFFFF_FFFF + 1).unwrap_err().kind, ErrorKind::InvalidLength);
    }
}
