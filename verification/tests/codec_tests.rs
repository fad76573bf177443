use todo_tui::tui::TUI;

fn tui_with(items: &[&str]) -> TUI {
    let mut t = TUI::new();
    t.todo_list = items.iter().map(|s| s.to_string()).collect();
    t
}

#[test]
fn encode_empty_list() {
    let t = TUI::new();
    assert_eq!(t.as_bytes(), vec![0xFE, 0xDC, 0x00, 0x00, 0x00, 0x00, 0x00]);
}

#[test]
fn encode_one_item() {
    let t = tui_with(&["A"]);
    assert_eq!(
        t.as_bytes(),
        vec![0xFE, 0xDC, 0x00, 0x00, 0x00, 0x00, 0x01, 0x41, 0x00]
    );
}

#[test]
fn encode_two_items() {
    let t = tui_with(&["hi", "yo"]);
    assert_eq!(
        t.as_bytes(),
        vec![
            0xFE, 0xDC, 0x00, 0x00, 0x00, 0x00, 0x02, b'h', b'i', 0x00, b'y', b'o', 0x00
        ]
    );
}

#[test]
fn round_trip_ascii() {
    let t = tui_with(&["buy milk", "call home", "write tests"]);
    let bytes = t.as_bytes();
    let back = TUI::from_bytes(&bytes).expect("decodes");
    assert_eq!(back.todo_list, t.todo_list);
    assert_eq!(back.at_line, 0);
}

#[test]
fn round_trip_unicode() {
    let t = tui_with(&["\u{e4}nder", "caf\u{e9}", "\u{1f600} emoji", ""]);
    let bytes = t.as_bytes();
    let back = TUI::from_bytes(&bytes).expect("decodes");
    assert_eq!(back.todo_list, t.todo_list);
}

#[test]
fn round_trip_keeps_order() {
    let items: Vec<String> = (0..50).map(|i| format!("item number {}", i)).collect();
    let mut t = TUI::new();
    t.todo_list = items.clone();
    let back = TUI::from_bytes(&t.as_bytes()).expect("decodes");
    assert_eq!(back.todo_list, items);
}

#[test]
fn decode_rejects_short_buffer() {
    assert!(TUI::from_bytes(&vec![]).is_none());
    assert!(TUI::from_bytes(&vec![0xFE]).is_none());
    assert!(TUI::from_bytes(&vec![0xFE, 0xDC, 0x00, 0x00, 0x00, 0x00]).is_none());
}

#[test]
fn decode_rejects_bad_magic() {
    assert!(TUI::from_bytes(&vec![0xFF, 0xDC, 0x00, 0x00, 0x00, 0x00, 0x00]).is_none());
    assert!(TUI::from_bytes(&vec![0xFE, 0xDD, 0x00, 0x00, 0x00, 0x00, 0x00]).is_none());
    assert!(TUI::from_bytes(&vec![0xFE, 0xDC, 0x01, 0x00, 0x00, 0x00, 0x00]).is_none());
}

#[test]
fn decode_accepts_empty_list() {
    let back = TUI::from_bytes(&vec![0xFE, 0xDC, 0x00, 0x00, 0x00, 0x00, 0x00]).expect("decodes");
    assert!(back.todo_list.is_empty());
}

#[test]
fn decode_rejects_missing_terminator() {
    // one item announced, no NUL before the buffer ends
    assert!(TUI::from_bytes(&vec![0xFE, 0xDC, 0x00, 0x00, 0x00, 0x00, 0x01, 0x41]).is_none());
}

#[test]
fn decode_rejects_truncated_count() {
    // two items announced, only one stored
    assert!(
        TUI::from_bytes(&vec![0xFE, 0xDC, 0x00, 0x00, 0x00, 0x00, 0x02, 0x41, 0x00]).is_none()
    );
}

#[test]
fn decode_rejects_invalid_utf8() {
    assert!(
        TUI::from_bytes(&vec![0xFE, 0xDC, 0x00, 0x00, 0x00, 0x00, 0x01, 0xFF, 0x00]).is_none()
    );
}

#[test]
fn decode_ignores_trailing_bytes() {
    let mut bytes = tui_with(&["A"]).as_bytes();
    bytes.push(0x07);
    bytes.push(0x41);
    let back = TUI::from_bytes(&bytes).expect("decodes");
    assert_eq!(back.todo_list, vec!["A".to_string()]);
}

#[test]
fn decode_resets_runtime_state() {
    let mut t = tui_with(&["a", "b", "c"]);
    t.at_line = 2;
    let back = TUI::from_bytes(&t.as_bytes()).expect("decodes");
    assert_eq!(back.at_line, 0);
    assert_eq!(back.title, "TODO-List");
    assert_eq!(back.controls.len(), 7);
}
