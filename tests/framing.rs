use data_sink::framing::LineFramer;

#[test]
fn lines_split_across_pieces_are_reassembled() {
    let text = b"{\"everything_is_fine\":true}\n{\"everything_is_fine\":false}\n";
    let mut framer = LineFramer::new();
    let mut lines = Vec::new();
    for piece in text.chunks(10) {
        lines.extend(framer.push_bytes(piece));
    }
    assert_eq!(
        lines,
        vec![
            b"{\"everything_is_fine\":true}".to_vec(),
            b"{\"everything_is_fine\":false}".to_vec()
        ]
    );
    assert_eq!(framer.pending_len(), 0);
}

#[test]
fn partial_line_waits_for_its_newline() {
    let mut framer = LineFramer::new();
    assert!(framer.push_bytes(b"  {\"a\":1}").is_empty());
    assert_eq!(framer.pending_len(), 9);
    assert_eq!(framer.push_bytes(b" \n\nx"), vec![b"  {\"a\":1} ".to_vec(), Vec::new()]);
    assert_eq!(framer.pending_len(), 1);
}
