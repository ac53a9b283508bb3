use anime_dl::framer::LineFramer;

#[test]
fn whole_chunk_yields_lines_in_order() {
    let mut f = LineFramer::new();
    f.push_chunk(b"PING :1\r\nJOIN :#nibl\r\npartial");
    assert_eq!(f.take_line(), Some(b"PING :1\r\n".to_vec()));
    assert_eq!(f.take_line(), Some(b"JOIN :#nibl\r\n".to_vec()));
    assert_eq!(f.take_line(), None);
    assert_eq!(f.carry_len(), 7);
}

#[test]
fn tiny_chunks_yield_the_same_lines() {
    let stream = b"PING :1\r\nJOIN :#nibl\r\npartial";
    let mut whole = LineFramer::new();
    whole.push_chunk(stream);
    let mut whole_lines = Vec::new();
    while let Some(l) = whole.take_line() {
        whole_lines.push(l);
    }

    for chunk_size in [1usize, 2, 3, 4, 7] {
        let mut f = LineFramer::new();
        let mut lines = Vec::new();
        for chunk in stream.chunks(chunk_size) {
            f.push_chunk(chunk);
            while let Some(l) = f.take_line() {
                lines.push(l);
            }
        }
        assert_eq!(lines, whole_lines);
        assert_eq!(f.carry_len(), whole.carry_len());
    }
}

#[test]
fn line_terminator_is_kept_and_trimmed_from_carry() {
    let mut f = LineFramer::new();
    f.push_chunk(b"abc\ndef");
    let line = f.take_line().unwrap();
    assert_eq!(line, b"abc\n".to_vec());
    assert_eq!(f.carry_len(), 3);
    f.push_chunk(b"\n");
    assert_eq!(f.take_line(), Some(b"def\n".to_vec()));
}

#[test]
fn drain_returns_all_buffered_lines_at_once() {
    let mut f = LineFramer::new();
    f.push_chunk(b"a\r\nbb\ncc");
    let lines = f.drain_lines();
    assert_eq!(lines, vec![b"a\r\n".to_vec(), b"bb\n".to_vec()]);
    assert_eq!(f.carry_len(), 2);
    assert!(f.drain_lines().is_empty());
}

#[test]
fn over_limit_trips_only_past_the_bound() {
    let mut f = LineFramer::new();
    f.push_chunk(&[b'x'; 4096]);
    assert!(!f.over_limit());
    f.push_chunk(b"y");
    assert!(f.over_limit());
}

#[test]
fn empty_chunk_changes_nothing() {
    let mut f = LineFramer::new();
    f.push_chunk(b"");
    assert_eq!(f.take_line(), None);
    assert_eq!(f.carry_len(), 0);
}
