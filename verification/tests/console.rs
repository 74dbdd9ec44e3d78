use viletech::console::{ConsoleKey, ConsoleState, LineBuffer, Message, MessageKind};

fn msg(s: &str, kind: MessageKind) -> Message {
    Message { string: s.to_string(), kind }
}

#[test]
fn clearing_history_drops_only_the_kinds_chosen() {
    let mut c = ConsoleState::new();
    c.messages = vec![msg("a", MessageKind::Log), msg("b", MessageKind::Toast), msg("c", MessageKind::Help), msg("d", MessageKind::Log)];
    c.clear_message_history(true, false, false);
    let left: Vec<&str> = c.messages.iter().map(|m| m.string.as_str()).collect();
    assert_eq!(left, vec!["b", "c"]);
    c.clear_message_history(false, true, true);
    assert!(c.messages.is_empty());
}

#[test]
fn return_submits_and_records_history_once() {
    let mut c = ConsoleState::new();
    assert_eq!(c.on_key(ConsoleKey::Return), None);
    assert!(c.scroll_to_bottom);
    c.input = "give all".to_string();
    assert_eq!(c.on_key(ConsoleKey::Return), Some("give all".to_string()));
    assert!(c.input.is_empty());
    assert_eq!(c.input_history, vec!["give all".to_string()]);
    assert_eq!(c.input_history_pos, 1);
    c.input = "give all".to_string();
    c.on_key(ConsoleKey::Return);
    assert_eq!(c.input_history.len(), 1);
    c.input = "noclip".to_string();
    c.on_key(ConsoleKey::Return);
    assert_eq!(c.input_history.len(), 2);
}

#[test]
fn arrows_walk_the_history() {
    let mut c = ConsoleState::new();
    for line in ["one", "two"] {
        c.input = line.to_string();
        c.on_key(ConsoleKey::Return);
    }
    c.on_key(ConsoleKey::Up);
    assert_eq!(c.input, "two");
    c.on_key(ConsoleKey::Up);
    assert_eq!(c.input, "one");
    c.on_key(ConsoleKey::Up);
    assert_eq!(c.input, "one");
    assert_eq!(c.input_history_pos, 0);
    c.on_key(ConsoleKey::Down);
    assert_eq!(c.input, "two");
    c.on_key(ConsoleKey::Down);
    assert_eq!(c.input, "");
    assert_eq!(c.input_history_pos, 2);
    c.on_key(ConsoleKey::Escape);
    assert!(c.defocus_textedit);
    c.clear_input_history();
    assert!(c.input_history.is_empty());
    assert_eq!(c.input_history_pos, 0);
}

#[test]
fn line_buffer_hands_back_lines_on_newline() {
    let mut b = LineBuffer::new();
    assert_eq!(b.write(b"[INFO] he"), None);
    assert_eq!(b.write(b"llo"), None);
    assert_eq!(b.write(b"\n"), Some(b"[INFO] hello".to_vec()));
    assert!(b.buffer.is_empty());
    b.write(b"rest");
    assert_eq!(b.flush(), b"rest".to_vec());
    assert!(b.buffer.is_empty());
}
