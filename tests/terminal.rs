use ls_pretty::terminal::{OutputBuffer, TerminalSession, OUTPUT_LINE_LIMIT};

#[test]
fn scrollback_keeps_the_last_hundred_lines() {
    let mut out = OutputBuffer::new();
    for i in 0..150 {
        out.append_chunk(&format!("line {}\n", i));
    }
    let text = out.text();
    let lines: Vec<&str> = text.lines().collect();
    assert_eq!(lines.len(), OUTPUT_LINE_LIMIT);
    let expected: Vec<String> = (50..150).map(|i| format!("line {}", i)).collect();
    assert_eq!(lines, expected);
    assert!(text.ends_with("line 149\n"));
}

#[test]
fn scrollback_keeps_a_partial_last_line() {
    let mut out = OutputBuffer::new();
    for i in 0..120 {
        out.append_chunk(&format!("{}\n", i));
    }
    out.append_chunk("prompt$ ");
    let text = out.text();
    assert_eq!(text.lines().count(), 100);
    assert!(text.starts_with("21\n"));
    assert!(text.ends_with("119\nprompt$ "));
}

#[test]
fn bytes_are_decoded_leniently() {
    let mut out = OutputBuffer::new();
    out.append_bytes(&[b'o', b'k', 0xff, b'\n']);
    assert_eq!(out.text(), "ok\u{fffd}\n");
}

#[test]
fn snapshot_gives_the_last_lines() {
    let mut out = OutputBuffer::new();
    out.append_chunk("a\nb\nc\nd");
    assert_eq!(out.snapshot(2), "c\nd");
    assert_eq!(out.snapshot(10), "a\nb\nc\nd");
    assert_eq!(out.snapshot(0), "");
}

#[test]
fn typing_without_a_shell_is_shown() {
    let mut out = OutputBuffer::new();
    let mut session = TerminalSession::fallback(&mut out, "no pty");
    assert!(!session.is_connected());
    assert!(out.text().starts_with("Failed to create pseudo-terminal, using fallback mode.\nError: no pty\n"));
    assert_eq!(session.forward_input(&mut out, "ls"), None);
    assert!(out.snapshot(1).ends_with("(no terminal) ls"));
    assert_eq!(session.handle_input(&mut out, 'x'), None);
    assert_eq!(session.input(), "x");
    assert!(out.snapshot(3).ends_with("(no terminal) ls(no terminal) x"));
}

#[test]
fn keys_go_to_a_connected_shell() {
    let mut out = OutputBuffer::new();
    let mut session = TerminalSession::opened(&mut out, "/home");
    assert_eq!(out.text(), "Terminal initialized successfully.\nWorking directory: /home\n");
    assert_eq!(session.handle_input(&mut out, 'l'), Some("l".to_string()));
    assert_eq!(session.handle_input(&mut out, 's'), Some("s".to_string()));
    assert_eq!(session.input(), "ls");
    assert_eq!(session.handle_input(&mut out, '\u{7f}'), Some("\u{8} \u{8}".to_string()));
    assert_eq!(session.input(), "l");
    assert_eq!(session.handle_input(&mut out, '\r'), Some("l\n".to_string()));
    assert_eq!(session.input(), "");
    assert_eq!(session.backspace(&mut out), None);
    assert_eq!(session.submit_line(&mut out), Some("\n".to_string()));
    assert_eq!(out.text(), "Terminal initialized successfully.\nWorking directory: /home\n");
}

#[test]
fn closing_clears_everything() {
    let mut out = OutputBuffer::new();
    let mut session = TerminalSession::opened(&mut out, "/");
    session.type_char(&mut out, 'a');
    session.close(&mut out);
    assert_eq!(out.text(), "");
    assert_eq!(session.input(), "");
    assert!(!session.is_connected());
    assert_eq!(session.forward_input(&mut out, "q"), None);
    assert_eq!(out.text(), "(no terminal) q");
}

#[test]
fn chunked_output_matches_output_appended_at_once() {
    let chunks: Vec<String> = (0..200)
        .map(|i| if i % 3 == 0 { format!("part{} ", i) } else { format!("line{}\n", i) })
        .collect();
    let mut by_chunk = OutputBuffer::new();
    for c in &chunks {
        by_chunk.append_chunk(c);
    }
    let mut at_once = OutputBuffer::new();
    at_once.append_chunk(&chunks.concat());
    assert_eq!(by_chunk.text(), at_once.text());
    assert_eq!(by_chunk.text().lines().count(), OUTPUT_LINE_LIMIT);
}
