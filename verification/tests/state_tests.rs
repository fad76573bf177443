use todo_tui::tui::Action;
use todo_tui::tui::Key;
use todo_tui::tui::TUI;
use todo_tui::tui::TUIState;

fn tui_with(items: &[&str]) -> TUI {
    let mut t = TUI::new();
    t.todo_list = items.iter().map(|s| s.to_string()).collect();
    t
}

fn entry_buf(s: &str) -> Vec<char> {
    s.chars().collect()
}

fn assert_browse_no_info(t: &TUI) {
    match &t.state {
        TUIState::Home { info } => assert!(info.is_none()),
        _ => panic!("expected browse mode"),
    }
}

#[test]
fn new_is_fresh() {
    let t = TUI::new();
    assert_eq!(t.title, "TODO-List");
    assert!(t.todo_list.is_empty());
    assert_eq!(t.at_line, 0);
    assert_browse_no_info(&t);
    assert_eq!(t.controls.len(), 7);
    assert_eq!(t.controls[0], ("Esc", "Exit"));
    assert_eq!(t.controls[6], ("L", "Load"));
}

#[test]
fn escape_terminates_from_browse() {
    let mut t = TUI::new();
    assert_eq!(t.update(Key::Escape), Action::Terminate);
}

#[test]
fn letter_keys_open_prompts() {
    for (c, want_add) in [('a', true), ('A', true), ('d', false)] {
        let mut t = TUI::new();
        assert_eq!(t.update(Key::Char(c)), Action::Redraw);
        match &t.state {
            TUIState::BeforeTextbox(inner) => match inner.as_ref() {
                TUIState::NewItem { cursor_pos, current } => {
                    assert!(want_add);
                    assert_eq!(*cursor_pos, 0);
                    assert!(current.is_empty());
                }
                TUIState::RemoveItem { .. } => assert!(!want_add),
                _ => panic!("unexpected prompt"),
            },
            _ => panic!("expected a pending prompt"),
        }
    }
}

#[test]
fn unknown_browse_key_bells() {
    let mut t = TUI::new();
    assert_eq!(t.update(Key::Char('x')), Action::Bell);
    assert_eq!(t.update(Key::Enter), Action::Bell);
    assert_browse_no_info(&t);
}

#[test]
fn after_draw_reveals_prompt() {
    let mut t = TUI::new();
    t.update(Key::Char('m'));
    t.after_draw();
    assert!(matches!(t.state, TUIState::MoveItem { .. }));
}

#[test]
fn after_draw_keeps_other_modes() {
    let mut t = TUI::new();
    t.after_draw();
    assert_browse_no_info(&t);
}

#[test]
fn navigation_clamps_offset() {
    let mut t = tui_with(&["x", "y", "z"]);
    assert_eq!(t.update(Key::ArrowUp), Action::Bell);
    assert_eq!(t.at_line, 0);
    assert_eq!(t.update(Key::ArrowDown), Action::Redraw);
    assert_eq!(t.at_line, 1);
    assert_eq!(t.update(Key::ArrowDown), Action::Redraw);
    assert_eq!(t.at_line, 2);
    assert_eq!(t.update(Key::ArrowDown), Action::Bell);
    assert_eq!(t.at_line, 2);
    assert_eq!(t.update(Key::ArrowLeft), Action::Redraw);
    assert_eq!(t.at_line, 0);
    assert_eq!(t.update(Key::ArrowRight), Action::Redraw);
    assert_eq!(t.at_line, 2);
}

#[test]
fn navigation_on_empty_list() {
    let mut t = TUI::new();
    assert_eq!(t.update(Key::ArrowDown), Action::Bell);
    assert_eq!(t.at_line, 0);
    assert_eq!(t.update(Key::ArrowUp), Action::Bell);
    assert_eq!(t.at_line, 0);
    assert_eq!(t.update(Key::ArrowRight), Action::Redraw);
    assert_eq!(t.at_line, 0);
}

#[test]
fn browse_key_clears_status_message() {
    let mut t = tui_with(&["x"]);
    t.load_result(None);
    match &t.state {
        TUIState::Home { info } => assert!(info.is_some()),
        _ => panic!("expected browse mode"),
    }
    t.update(Key::ArrowLeft);
    assert_browse_no_info(&t);
}

#[test]
fn entry_editing_keeps_cursor_in_bounds() {
    let mut t = TUI::new();
    t.state = TUIState::NewItem { cursor_pos: 0, current: Vec::new() };
    assert_eq!(t.update(Key::Char('h')), Action::Redraw);
    assert_eq!(t.update(Key::Char('i')), Action::Redraw);
    match &t.state {
        TUIState::NewItem { cursor_pos, current } => {
            assert_eq!(*cursor_pos, 2);
            assert_eq!(current, &entry_buf("hi"));
        }
        _ => panic!("expected add prompt"),
    }
    assert_eq!(t.update(Key::ArrowRight), Action::Bell);
    assert_eq!(t.update(Key::ArrowLeft), Action::Redraw);
    assert_eq!(t.update(Key::ArrowLeft), Action::Redraw);
    assert_eq!(t.update(Key::ArrowLeft), Action::Bell);
    match &t.state {
        TUIState::NewItem { cursor_pos, current } => {
            assert_eq!(*cursor_pos, 0);
            assert_eq!(current, &entry_buf("hi"));
        }
        _ => panic!("expected add prompt"),
    }
}

#[test]
fn backspace_at_start_bells_and_keeps_buffer() {
    let mut t = TUI::new();
    t.state = TUIState::NewItem { cursor_pos: 0, current: entry_buf("hi") };
    assert_eq!(t.update(Key::Backspace), Action::Bell);
    match &t.state {
        TUIState::NewItem { cursor_pos, current } => {
            assert_eq!(*cursor_pos, 0);
            assert_eq!(current, &entry_buf("hi"));
        }
        _ => panic!("expected add prompt"),
    }
}

#[test]
fn backspace_removes_before_cursor() {
    let mut t = TUI::new();
    t.state = TUIState::NewItem { cursor_pos: 2, current: entry_buf("abc") };
    assert_eq!(t.update(Key::Backspace), Action::Redraw);
    match &t.state {
        TUIState::NewItem { cursor_pos, current } => {
            assert_eq!(*cursor_pos, 1);
            assert_eq!(current, &entry_buf("ac"));
        }
        _ => panic!("expected add prompt"),
    }
}

#[test]
fn home_and_end_jump() {
    let mut t = TUI::new();
    t.state = TUIState::NewItem { cursor_pos: 1, current: entry_buf("abc") };
    t.update(Key::End);
    assert!(matches!(&t.state, TUIState::NewItem { cursor_pos: 3, .. }));
    t.update(Key::Home);
    assert!(matches!(&t.state, TUIState::NewItem { cursor_pos: 0, .. }));
}

#[test]
fn insert_in_middle() {
    let mut t = TUI::new();
    t.state = TUIState::NewItem { cursor_pos: 1, current: entry_buf("ac") };
    t.update(Key::Char('b'));
    match &t.state {
        TUIState::NewItem { cursor_pos, current } => {
            assert_eq!(*cursor_pos, 2);
            assert_eq!(current, &entry_buf("abc"));
        }
        _ => panic!("expected add prompt"),
    }
}

#[test]
fn escape_discards_entry() {
    let mut t = tui_with(&["x"]);
    t.state = TUIState::NewItem { cursor_pos: 3, current: entry_buf("abc") };
    assert_eq!(t.update(Key::Escape), Action::Redraw);
    assert_browse_no_info(&t);
    assert_eq!(t.todo_list, vec!["x".to_string()]);
}

#[test]
fn add_commit_appends() {
    let mut t = tui_with(&["x"]);
    t.state = TUIState::NewItem { cursor_pos: 5, current: entry_buf("hello") };
    assert_eq!(t.update(Key::Enter), Action::Redraw);
    assert_eq!(t.todo_list, vec!["x".to_string(), "hello".to_string()]);
    assert_browse_no_info(&t);
}

#[test]
fn add_commit_stores_raw_text() {
    let mut t = TUI::new();
    t.state = TUIState::NewItem { cursor_pos: 3, current: entry_buf("a*b") };
    t.update(Key::Enter);
    assert_eq!(t.todo_list, vec!["a*b".to_string()]);
}

#[test]
fn blank_add_commit_is_a_no_op() {
    let mut t = tui_with(&["x"]);
    t.state = TUIState::NewItem { cursor_pos: 3, current: entry_buf("  \t") };
    assert_eq!(t.update(Key::Enter), Action::Redraw);
    assert_eq!(t.todo_list, vec!["x".to_string()]);
    assert_browse_no_info(&t);
}

#[test]
fn empty_enter_leaves_entry_mode() {
    let mut t = tui_with(&["x", "y"]);
    t.state = TUIState::RemoveItem { cursor_pos: 0, current: Vec::new() };
    assert_eq!(t.update(Key::Enter), Action::Redraw);
    assert_eq!(t.todo_list.len(), 2);
    assert_browse_no_info(&t);
}

#[test]
fn remove_commit_deletes_item() {
    let mut t = tui_with(&["a", "b", "c"]);
    t.state = TUIState::RemoveItem { cursor_pos: 1, current: entry_buf("2") };
    assert_eq!(t.update(Key::Enter), Action::Redraw);
    assert_eq!(t.todo_list, vec!["a".to_string(), "c".to_string()]);
}

#[test]
fn remove_out_of_range_bells() {
    let mut t = tui_with(&["a", "b", "c"]);
    t.state = TUIState::RemoveItem { cursor_pos: 1, current: entry_buf("5") };
    assert_eq!(t.update(Key::Enter), Action::Bell);
    assert_eq!(
        t.todo_list,
        vec!["a".to_string(), "b".to_string(), "c".to_string()]
    );
    assert_browse_no_info(&t);
}

#[test]
fn remove_accepts_leading_plus() {
    let mut t = tui_with(&["a", "b"]);
    t.state = TUIState::RemoveItem { cursor_pos: 0, current: entry_buf("+2") };
    assert_eq!(t.update(Key::Enter), Action::Redraw);
    assert_eq!(t.todo_list, vec!["a".to_string()]);
}

#[test]
fn remove_zero_and_garbage_bell() {
    for buf in ["0", "abc", "1x", "-1", "++2", "+", ""] {
        let mut t = tui_with(&["a", "b"]);
        t.state = TUIState::RemoveItem { cursor_pos: 0, current: entry_buf(buf) };
        let action = t.update(Key::Enter);
        if buf.is_empty() {
            assert_eq!(action, Action::Redraw);
        } else {
            assert_eq!(action, Action::Bell);
        }
        assert_eq!(t.todo_list.len(), 2);
    }
}

#[test]
fn remove_last_item_keeps_offset_in_list() {
    let mut t = tui_with(&["a", "b", "c"]);
    t.at_line = 2;
    t.state = TUIState::RemoveItem { cursor_pos: 1, current: entry_buf("3") };
    assert_eq!(t.update(Key::Enter), Action::Redraw);
    assert_eq!(t.todo_list.len(), 2);
    assert!(t.at_line < t.todo_list.len());
}

#[test]
fn move_commit_reinserts() {
    let mut t = tui_with(&["A", "B", "C", "D"]);
    t.state = TUIState::MoveItem { cursor_pos: 3, current: entry_buf("2;4") };
    assert_eq!(t.update(Key::Enter), Action::Redraw);
    assert_eq!(
        t.todo_list,
        vec![
            "A".to_string(),
            "C".to_string(),
            "D".to_string(),
            "B".to_string()
        ]
    );
}

#[test]
fn move_to_front() {
    let mut t = tui_with(&["A", "B", "C"]);
    t.state = TUIState::MoveItem { cursor_pos: 3, current: entry_buf("3;1") };
    assert_eq!(t.update(Key::Enter), Action::Redraw);
    assert_eq!(
        t.todo_list,
        vec!["C".to_string(), "A".to_string(), "B".to_string()]
    );
}

#[test]
fn move_rejects_bad_specs() {
    for buf in ["2", "1;2;3", "0;1", "1;0", "5;1", "1;5", "x;1", "1;x", ";", "1;"] {
        let mut t = tui_with(&["A", "B", "C"]);
        t.state = TUIState::MoveItem { cursor_pos: 0, current: entry_buf(buf) };
        assert_eq!(t.update(Key::Enter), Action::Bell, "buffer {:?}", buf);
        assert_eq!(t.todo_list.len(), 3);
        assert_eq!(t.todo_list[0], "A");
    }
}

#[test]
fn save_commit_emits_write_action() {
    let mut t = tui_with(&["A"]);
    t.state = TUIState::Save { cursor_pos: 3, current: entry_buf("foo") };
    let action = t.update(Key::Enter);
    match action {
        Action::WriteFile { name, data } => {
            assert_eq!(name, "foo.ftms");
            assert_eq!(
                data,
                vec![0xFE, 0xDC, 0x00, 0x00, 0x00, 0x00, 0x01, 0x41, 0x00]
            );
        }
        other => panic!("expected a write action, got {:?}", other),
    }
    assert_eq!(t.todo_list, vec!["A".to_string()]);
    assert_browse_no_info(&t);
}

#[test]
fn load_commit_emits_read_action() {
    let mut t = tui_with(&["A"]);
    t.state = TUIState::Load { cursor_pos: 3, current: entry_buf("bar") };
    let action = t.update(Key::Enter);
    assert_eq!(
        action,
        Action::ReadFile { name: "bar.ftms".to_string() }
    );
    assert_browse_no_info(&t);
}

#[test]
fn load_of_missing_file_keeps_list() {
    let mut t = tui_with(&["keep", "these"]);
    t.load_result(None);
    match &t.state {
        TUIState::Home { info } => {
            assert_eq!(info.unwrap(), "\x1b[0;1;91mCan't find file\x1b[0m");
        }
        _ => panic!("expected browse mode"),
    }
    assert_eq!(
        t.todo_list,
        vec!["keep".to_string(), "these".to_string()]
    );
}

#[test]
fn load_of_corrupt_file_keeps_list() {
    let mut t = tui_with(&["keep"]);
    t.load_result(Some(vec![1, 2, 3]));
    match &t.state {
        TUIState::Home { info } => {
            assert_eq!(info.unwrap(), "\x1b[0;1;91mFile format error\x1b[0m");
        }
        _ => panic!("expected browse mode"),
    }
    assert_eq!(t.todo_list, vec!["keep".to_string()]);
}

#[test]
fn load_of_valid_file_replaces_state() {
    let saved = tui_with(&["new", "list"]).as_bytes();
    let mut t = tui_with(&["old"]);
    t.at_line = 0;
    t.load_result(Some(saved));
    assert_eq!(t.todo_list, vec!["new".to_string(), "list".to_string()]);
    assert_eq!(t.at_line, 0);
    assert_browse_no_info(&t);
}

#[test]
fn unknown_entry_key_bells() {
    let mut t = TUI::new();
    t.state = TUIState::NewItem { cursor_pos: 1, current: entry_buf("a") };
    assert_eq!(t.update(Key::Other), Action::Bell);
    assert!(matches!(&t.state, TUIState::NewItem { cursor_pos: 1, .. }));
}
