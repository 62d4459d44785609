//! The console line editor: echoing, history, cursor motion, escape
//! sequences, committing.

use simple_os::console::{Console, ConsoleEvent};

fn feed(console: &mut Console, bytes: &[u8], out: &mut Vec<u8>) -> Vec<Vec<u8>> {
    let mut committed = Vec::new();
    for &b in bytes {
        if let ConsoleEvent::Committed(line) = console.handle_byte(b, out) {
            committed.push(line);
        }
    }
    committed
}

#[test]
fn typing_echoes_and_commit_returns_the_line() {
    let mut c = Console::new();
    let mut out = Vec::new();
    let committed = feed(&mut c, b"ps\r", &mut out);
    assert_eq!(committed, vec![b"ps".to_vec()]);
    // The two typed bytes echo, then the commit's CRLF.
    assert_eq!(out, b"ps\r\n".to_vec());
}

#[test]
fn commit_clears_line_cursor_and_history_index() {
    let mut c = Console::new();
    let mut out = Vec::new();
    feed(&mut c, b"abc\r", &mut out);
    assert_eq!(c.line_bytes(), b"".to_vec());
    assert_eq!(c.cursor_position(), 0);
    // Recall then commit again: the index is unset afterwards, so a further
    // up-arrow starts from the newest entry.
    feed(&mut c, b"\x1b[A", &mut out);
    assert_eq!(c.line_bytes(), b"abc".to_vec());
    feed(&mut c, b"\r", &mut out);
    assert_eq!(c.line_bytes(), b"".to_vec());
    assert_eq!(c.cursor_position(), 0);
}

#[test]
fn commit_trims_whitespace() {
    let mut c = Console::new();
    let mut out = Vec::new();
    let committed = feed(&mut c, b"  ps  \r", &mut out);
    assert_eq!(committed, vec![b"ps".to_vec()]);
}

#[test]
fn backspace_erases_typed_bytes() {
    let mut c = Console::new();
    let mut out = Vec::new();
    feed(&mut c, b"abcd", &mut out);
    feed(&mut c, &[8, 8, 8, 8], &mut out);
    assert_eq!(c.line_bytes(), b"".to_vec());
    assert_eq!(c.cursor_position(), 0);
    // One more backspace on the empty line changes nothing.
    feed(&mut c, &[127], &mut out);
    assert_eq!(c.line_bytes(), b"".to_vec());
}

#[test]
fn insertion_in_the_middle() {
    let mut c = Console::new();
    let mut out = Vec::new();
    feed(&mut c, b"ac", &mut out);
    // Left arrow, then insert 'b' before 'c'.
    feed(&mut c, &[27, b'[', b'D'], &mut out);
    assert_eq!(c.cursor_position(), 1);
    feed(&mut c, b"b", &mut out);
    assert_eq!(c.line_bytes(), b"abc".to_vec());
    assert_eq!(c.cursor_position(), 2);
    // Right arrow back to the end.
    feed(&mut c, &[27, b'[', b'C'], &mut out);
    assert_eq!(c.cursor_position(), 3);
}

#[test]
fn ctrl_c_aborts_the_edit() {
    let mut c = Console::new();
    let mut out = Vec::new();
    feed(&mut c, b"garbage", &mut out);
    out.clear();
    let committed = feed(&mut c, &[3], &mut out);
    assert!(committed.is_empty());
    assert_eq!(c.line_bytes(), b"".to_vec());
    assert_eq!(c.cursor_position(), 0);
    // ^C, CRLF, then the prompt.
    assert_eq!(out, b"^C\r\n> ".to_vec());
}

#[test]
fn history_keeps_at_most_ten_nonempty_distinct_lines() {
    let mut c = Console::new();
    let mut out = Vec::new();
    for i in 0u8..12 {
        let line = vec![b'c', b'0' + (i % 10)];
        feed(&mut c, &line, &mut out);
        feed(&mut c, b"\r", &mut out);
    }
    assert_eq!(c.history_len(), 10);
    // The two oldest entries were dropped.
    assert_eq!(c.history_entry(0).unwrap(), b"c2".to_vec());
    assert_eq!(c.history_entry(9).unwrap(), b"c1".to_vec());
}

#[test]
fn history_skips_empty_and_repeated_lines() {
    let mut c = Console::new();
    let mut out = Vec::new();
    feed(&mut c, b"\r", &mut out);
    assert_eq!(c.history_len(), 0);
    feed(&mut c, b"a\r", &mut out);
    feed(&mut c, b"a\r", &mut out);
    assert_eq!(c.history_len(), 1);
    feed(&mut c, b"b\r", &mut out);
    feed(&mut c, b"a\r", &mut out);
    assert_eq!(c.history_len(), 3);
    for i in 0..c.history_len() {
        assert!(!c.history_entry(i).unwrap().is_empty());
        if i > 0 {
            assert_ne!(c.history_entry(i - 1).unwrap(), c.history_entry(i).unwrap());
        }
    }
}

#[test]
fn history_recall_walks_up_and_down() {
    let mut c = Console::new();
    let mut out = Vec::new();
    feed(&mut c, b"a\r", &mut out);
    feed(&mut c, b"b\r", &mut out);
    // Up: newest entry.
    feed(&mut c, &[27, b'[', b'A'], &mut out);
    assert_eq!(c.line_bytes(), b"b".to_vec());
    // Up again: older entry.
    feed(&mut c, &[27, b'[', b'A'], &mut out);
    assert_eq!(c.line_bytes(), b"a".to_vec());
    // Down: newer entry again.
    feed(&mut c, &[27, b'[', b'B'], &mut out);
    assert_eq!(c.line_bytes(), b"b".to_vec());
    // Down past the newest: empty line.
    feed(&mut c, &[27, b'[', b'B'], &mut out);
    assert_eq!(c.line_bytes(), b"".to_vec());
    assert_eq!(c.cursor_position(), 0);
}

#[test]
fn up_arrow_clamps_at_the_oldest_entry() {
    let mut c = Console::new();
    let mut out = Vec::new();
    feed(&mut c, b"one\r", &mut out);
    feed(&mut c, &[27, b'[', b'A'], &mut out);
    feed(&mut c, &[27, b'[', b'A'], &mut out);
    feed(&mut c, &[27, b'[', b'A'], &mut out);
    assert_eq!(c.line_bytes(), b"one".to_vec());
}

#[test]
fn recall_redraws_with_clear_sequence() {
    let mut c = Console::new();
    let mut out = Vec::new();
    feed(&mut c, b"hi\r", &mut out);
    out.clear();
    feed(&mut c, &[27, b'[', b'A'], &mut out);
    // Carriage return, erase-to-end, prompt, then the recalled line.
    assert_eq!(out, b"\r\x1b[K> hi".to_vec());
}

#[test]
fn escape_then_other_byte_returns_to_normal() {
    let mut c = Console::new();
    let mut out = Vec::new();
    feed(&mut c, &[27], &mut out);
    // 'x' after a bare ESC is swallowed; typing then resumes normally.
    feed(&mut c, b"x", &mut out);
    assert_eq!(c.line_bytes(), b"".to_vec());
    feed(&mut c, b"y", &mut out);
    assert_eq!(c.line_bytes(), b"y".to_vec());
}

#[test]
fn unknown_csi_bytes_are_ignored() {
    let mut c = Console::new();
    let mut out = Vec::new();
    feed(&mut c, b"ab", &mut out);
    out.clear();
    // ESC [ Z: no cursor or history action; the decoder returns to normal.
    feed(&mut c, &[27, b'[', b'Z'], &mut out);
    assert!(out.is_empty());
    assert_eq!(c.line_bytes(), b"ab".to_vec());
    assert_eq!(c.cursor_position(), 2);
    feed(&mut c, b"c", &mut out);
    assert_eq!(c.line_bytes(), b"abc".to_vec());
}

#[test]
fn full_line_swallows_further_bytes() {
    let mut c = Console::new();
    let mut out = Vec::new();
    for _ in 0..600 {
        feed(&mut c, b"x", &mut out);
    }
    assert_eq!(c.line_bytes().len(), 512);
}

#[test]
fn prompt_is_replaceable() {
    let mut c = Console::new();
    let mut out = Vec::new();
    c.set_prompt(b"$ ".to_vec());
    c.show_prompt(&mut out);
    assert_eq!(out, b"$ ".to_vec());
}

#[test]
fn control_bytes_are_ignored() {
    let mut c = Console::new();
    let mut out = Vec::new();
    feed(&mut c, &[1, 2, 4, 5, 6, 7], &mut out);
    assert_eq!(c.line_bytes(), b"".to_vec());
    assert!(out.is_empty());
}
