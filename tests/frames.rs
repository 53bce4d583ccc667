use serial_bridge::frame::{line_frame, FrameReassembler};

fn feed_all(chunks: &[&[u8]]) -> Vec<String> {
    let mut r = FrameReassembler::new();
    let mut out = Vec::new();
    for c in chunks {
        out.extend(r.feed(c));
    }
    out
}

#[test]
fn frame_split_across_two_reads() {
    let mut r = FrameReassembler::new();
    assert_eq!(r.feed(b"12.5\n3"), vec!["12.5".to_string()]);
    assert_eq!(r.feed(b"4.1\n"), vec!["34.1".to_string()]);
}

#[test]
fn chunk_boundaries_do_not_change_frames() {
    let whole: &[u8] = b"a1\n\n  b2 \r\nc3\n  \nd4";
    let once = feed_all(&[whole]);
    assert_eq!(once, vec!["a1", "b2", "c3"]);
    for cut in 0..=whole.len() {
        let (x, y) = whole.split_at(cut);
        assert_eq!(feed_all(&[x, y]), once, "cut at {}", cut);
    }
    let three = feed_all(&[&whole[..2], &whole[2..9], &whole[9..]]);
    assert_eq!(three, once);
}

#[test]
fn byte_by_byte_gives_one_frame() {
    let line = b"hello world\n";
    let singles: Vec<&[u8]> = line.chunks(1).collect();
    assert_eq!(singles.len(), line.len());
    assert_eq!(feed_all(&singles), vec!["hello world".to_string()]);
    assert_eq!(feed_all(&[line]), vec!["hello world".to_string()]);
}

#[test]
fn blank_lines_are_suppressed() {
    assert_eq!(feed_all(&[b"\n \n\t\r\n"]), Vec::<String>::new());
}

#[test]
fn frames_are_trimmed() {
    assert_eq!(feed_all(&[b"  12.5 \r\n"]), vec!["12.5".to_string()]);
    assert_eq!(line_frame(b"\t x y \r").as_deref(), Some("x y"));
}

#[test]
fn unterminated_tail_waits() {
    let mut r = FrameReassembler::new();
    assert!(r.feed(b"abc").is_empty());
    assert!(r.feed(b"def").is_empty());
    assert_eq!(r.feed(b"\n"), vec!["abcdef".to_string()]);
}

#[test]
fn multibyte_character_split_across_reads() {
    let mut r = FrameReassembler::new();
    assert!(r.feed(&[b'c', b'a', b'f', 0xC3]).is_empty());
    assert_eq!(r.feed(&[0xA9, b'\n']), vec!["caf\u{e9}".to_string()]);
}

#[test]
fn invalid_utf8_line_is_dropped() {
    assert_eq!(feed_all(&[&[0xFF, b'x', b'\n', b'o', b'k', b'\n']]), vec!["ok".to_string()]);
    assert_eq!(line_frame(&[0xC3]), None);
}

#[test]
fn empty_chunk_emits_nothing() {
    let mut r = FrameReassembler::new();
    assert!(r.feed(b"").is_empty());
}
