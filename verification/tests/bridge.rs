use mcp_supervisor::bridge::Bridge;

#[test]
fn one_line_one_event() {
    let mut b = Bridge::new(String::from("p"));
    let events = b.push_bytes(b"ping\n");
    assert_eq!(events.len(), 1);
    assert_eq!(events[0].name, "p");
    assert_eq!(events[0].chunk, "ping");
}

#[test]
fn lines_keep_child_write_order() {
    let mut b = Bridge::new(String::from("p"));
    let events = b.push_bytes(b"first\nsecond\nthird\n");
    let chunks: Vec<&str> = events.iter().map(|e| e.chunk.as_str()).collect();
    assert_eq!(chunks, vec!["first", "second", "third"]);
}

#[test]
fn line_split_across_reads_is_one_event() {
    let mut b = Bridge::new(String::from("p"));
    assert!(b.push_bytes(b"hel").is_empty());
    assert!(b.push_bytes(b"lo wor").is_empty());
    let events = b.push_bytes(b"ld\nnext");
    assert_eq!(events.len(), 1);
    assert_eq!(events[0].chunk, "hello world");
    let tail = b.push_bytes(b"\n");
    assert_eq!(tail.len(), 1);
    assert_eq!(tail[0].chunk, "next");
}

#[test]
fn empty_read_produces_no_events() {
    let mut b = Bridge::new(String::from("p"));
    assert!(b.push_bytes(&[]).is_empty());
    assert!(b.finish().is_none());
}

#[test]
fn empty_lines_are_delivered() {
    let mut b = Bridge::new(String::from("p"));
    let events = b.push_bytes(b"\n\n");
    assert_eq!(events.len(), 2);
    assert_eq!(events[0].chunk, "");
    assert_eq!(events[1].chunk, "");
}

#[test]
fn final_unterminated_chunk_is_delivered_on_finish() {
    let mut b = Bridge::new(String::from("p"));
    let events = b.push_bytes(b"done\nno newline at exit");
    assert_eq!(events.len(), 1);
    assert_eq!(events[0].chunk, "done");
    let last = b.finish().expect("the unterminated tail must not be dropped");
    assert_eq!(last.name, "p");
    assert_eq!(last.chunk, "no newline at exit");
    assert!(b.finish().is_none());
}

#[test]
fn invalid_bytes_are_substituted_not_fatal() {
    let mut b = Bridge::new(String::from("p"));
    let events = b.push_bytes(&[b'o', b'k', 0xFF, 0xFE, b'!', b'\n', b'm', b'o', b'r', b'e', b'\n']);
    assert_eq!(events.len(), 2);
    assert_eq!(events[0].chunk, "ok\u{FFFD}\u{FFFD}!");
    assert_eq!(events[1].chunk, "more");
}

#[test]
fn multibyte_text_decodes_exactly() {
    let mut b = Bridge::new(String::from("p"));
    let mut bytes = String::from("caf\u{e9} \u{2713}").into_bytes();
    bytes.push(b'\n');
    let events = b.push_bytes(bytes.as_slice());
    assert_eq!(events.len(), 1);
    assert_eq!(events[0].chunk, "caf\u{e9} \u{2713}");
}

#[test]
fn interleaved_processes_tag_their_own_names() {
    let mut a = Bridge::new(String::from("a"));
    let mut b = Bridge::new(String::from("b"));
    let mut all = Vec::new();
    all.extend(a.push_bytes(b"from a one\nfrom"));
    all.extend(b.push_bytes(b"from b one\n"));
    all.extend(a.push_bytes(b" a two\n"));
    all.extend(b.push_bytes(b"from b two\n"));
    let tagged: Vec<(String, String)> =
        all.iter().map(|e| (e.name.clone(), e.chunk.clone())).collect();
    assert_eq!(
        tagged,
        vec![
            (String::from("a"), String::from("from a one")),
            (String::from("b"), String::from("from b one")),
            (String::from("a"), String::from("from a two")),
            (String::from("b"), String::from("from b two")),
        ]
    );
}

#[test]
fn event_is_from_matches_name() {
    let mut b = Bridge::new(String::from("srv"));
    let events = b.push_bytes(b"x\n");
    assert!(events[0].is_from(&String::from("srv")));
    assert!(!events[0].is_from(&String::from("other")));
}
