use egui::Color32;
use sigmaterm::palette::ColorSet;
use sigmaterm::header::HeaderAction;
use sigmaterm::terminal::{InputEvent, Key, Terminal, TerminalResponse, OUTPUT_CAP};

fn palette() -> ColorSet {
    ColorSet {
        primary: Color32::from_rgb(1, 0, 0),
        light: Color32::from_rgb(2, 0, 0),
        dark: Color32::from_rgb(3, 0, 0),
        on_primary: Color32::from_rgb(4, 0, 0),
        on_light: Color32::from_rgb(5, 0, 0),
        on_dark: Color32::from_rgb(6, 0, 0),
        alert: Color32::from_rgb(7, 0, 0),
        warning: Color32::from_rgb(8, 0, 0),
        alternate_1: Color32::from_rgb(9, 0, 0),
        alternate_2: Color32::from_rgb(10, 0, 0),
        alternate_3: Color32::from_rgb(11, 0, 0),
    }
}

fn active_session() -> Terminal {
    let mut t = Terminal::new(0, 640, 480, palette(), false, 0);
    t.set_active(true);
    t
}

fn key(k: Key) -> InputEvent {
    InputEvent::Key { key: k, ctrl: false }
}

fn ctrl(c: char) -> InputEvent {
    InputEvent::Key { key: Key::Letter(c), ctrl: true }
}

fn text(s: &str) -> InputEvent {
    InputEvent::Text(s.to_string())
}

fn submit(t: &mut Terminal, line: &str) -> Vec<u8> {
    assert!(t.handle_event(&text(line)).is_empty());
    t.handle_event(&key(Key::Enter))
}

#[test]
fn new_session_starts_inactive_in_line_mode() {
    let t = Terminal::new(3, 640, 480, palette(), true, 42);
    assert_eq!(t.id(), 3);
    assert!(!t.is_active());
    assert!(!t.is_raw_mode());
    assert!(t.cursor_visible());
    assert!(t.is_maximized());
    assert_eq!(t.width(), 640);
    assert_eq!(t.height(), 480);
    assert_eq!(t.output_len(), 0);
    assert_eq!(t.command_text(), "");
    assert_eq!(t.history_cursor(), None);
    assert_eq!(t.get_title(), "Untitled Terminal");
}

#[test]
fn history_walk() {
    let mut t = active_session();
    assert_eq!(submit(&mut t, "ls"), b"ls\n".to_vec());
    assert_eq!(submit(&mut t, "pwd"), b"pwd\n".to_vec());
    assert_eq!(t.command_text(), "");
    assert_eq!(t.history_len(), 2);

    assert!(t.handle_event(&key(Key::ArrowUp)).is_empty());
    assert_eq!(t.command_text(), "pwd");
    t.handle_event(&key(Key::ArrowUp));
    assert_eq!(t.command_text(), "ls");
    t.handle_event(&key(Key::ArrowDown));
    assert_eq!(t.command_text(), "pwd");
    t.handle_event(&key(Key::ArrowDown));
    assert_eq!(t.command_text(), "");
    assert_eq!(t.history_cursor(), None);
}

#[test]
fn up_stops_at_the_oldest_entry() {
    let mut t = active_session();
    submit(&mut t, "one");
    submit(&mut t, "two");
    for _ in 0..5 {
        t.handle_event(&key(Key::ArrowUp));
    }
    assert_eq!(t.command_text(), "one");
    assert_eq!(t.history_cursor(), Some(0));
}

#[test]
fn up_and_down_without_history_change_nothing() {
    let mut t = active_session();
    t.handle_event(&text("abc"));
    t.handle_event(&key(Key::ArrowUp));
    t.handle_event(&key(Key::ArrowDown));
    assert_eq!(t.command_text(), "abc");
    assert_eq!(t.history_cursor(), None);
}

#[test]
fn blank_lines_are_sent_but_not_remembered() {
    let mut t = active_session();
    assert_eq!(submit(&mut t, "  \t"), b"  \t\n".to_vec());
    assert_eq!(t.handle_event(&key(Key::Enter)), b"\n".to_vec());
    assert_eq!(t.history_len(), 0);
}

#[test]
fn enter_sends_utf8() {
    let mut t = active_session();
    assert_eq!(submit(&mut t, "echo é✓😀"), "echo é✓😀\n".as_bytes().to_vec());
}

#[test]
fn typing_cancels_history_browsing() {
    let mut t = active_session();
    submit(&mut t, "ls");
    t.handle_event(&key(Key::ArrowUp));
    assert_eq!(t.history_cursor(), Some(0));
    t.handle_event(&text(" -l"));
    assert_eq!(t.command_text(), "ls -l");
    assert_eq!(t.history_cursor(), None);
}

#[test]
fn backspace_drops_last_character() {
    let mut t = active_session();
    t.handle_event(&text("abé"));
    t.handle_event(&key(Key::Backspace));
    assert_eq!(t.command_text(), "ab");
    t.handle_event(&key(Key::Backspace));
    t.handle_event(&key(Key::Backspace));
    t.handle_event(&key(Key::Backspace));
    assert_eq!(t.command_text(), "");
}

#[test]
fn ctrl_c_interrupts_and_clears_the_line() {
    let mut t = active_session();
    t.handle_event(&text("sleep 100"));
    assert_eq!(t.handle_event(&ctrl('c')), vec![0x03]);
    assert_eq!(t.command_text(), "");
}

#[test]
fn line_mode_sends_ctrl_d_ctrl_l_and_navigation_keys() {
    let mut t = active_session();
    assert_eq!(t.handle_event(&ctrl('d')), vec![0x04]);
    assert_eq!(t.handle_event(&ctrl('l')), vec![0x0c]);
    assert!(t.handle_event(&ctrl('z')).is_empty());
    assert_eq!(t.handle_event(&key(Key::Tab)), b"\t".to_vec());
    assert_eq!(t.handle_event(&key(Key::ArrowLeft)), b"\x1b[D".to_vec());
    assert_eq!(t.handle_event(&key(Key::PageUp)), b"\x1b[5~".to_vec());
    assert!(t.handle_event(&key(Key::Letter('c'))).is_empty());
    assert_eq!(t.command_text(), "");
}

#[test]
fn inactive_session_ignores_input() {
    let mut t = Terminal::new(0, 10, 10, palette(), false, 0);
    assert!(t.handle_event(&text("x")).is_empty());
    assert!(t.handle_event(&key(Key::Enter)).is_empty());
    assert_eq!(t.command_text(), "");
}

#[test]
fn alternate_screen_switches_raw_mode() {
    let mut t = active_session();
    t.append_output("prompt$ ");
    t.append_output("\x1b[?1049hvim screen");
    assert!(t.is_raw_mode());
    assert_eq!(t.output_text(), "prompt$ \x1b[?1049hvim screen");
    t.append_output("bye\x1b[?1049lback");
    assert!(!t.is_raw_mode());
    assert_eq!(t.output_text(), "prompt$ \x1b[?1049hvim screenbye\x1b[?1049lback");
}

#[test]
fn cursor_hide_switches_raw_mode() {
    let mut t = active_session();
    t.append_output("\x1b[?25l");
    assert!(t.is_raw_mode());
}

#[test]
fn raw_mode_sends_key_sequences() {
    let mut t = active_session();
    t.append_output("\x1b[?1049h");
    assert_eq!(t.handle_event(&key(Key::Enter)), b"\r".to_vec());
    assert_eq!(t.handle_event(&key(Key::Backspace)), vec![0x7f]);
    assert_eq!(t.handle_event(&key(Key::Tab)), b"\t".to_vec());
    assert_eq!(t.handle_event(&key(Key::Escape)), b"\x1b".to_vec());
    assert_eq!(t.handle_event(&key(Key::ArrowUp)), b"\x1b[A".to_vec());
    assert_eq!(t.handle_event(&key(Key::ArrowDown)), b"\x1b[B".to_vec());
    assert_eq!(t.handle_event(&key(Key::ArrowRight)), b"\x1b[C".to_vec());
    assert_eq!(t.handle_event(&key(Key::ArrowLeft)), b"\x1b[D".to_vec());
    assert_eq!(t.handle_event(&key(Key::Home)), b"\x1b[H".to_vec());
    assert_eq!(t.handle_event(&key(Key::End)), b"\x1b[F".to_vec());
    assert_eq!(t.handle_event(&key(Key::PageDown)), b"\x1b[6~".to_vec());
    assert_eq!(t.handle_event(&key(Key::Delete)), b"\x1b[3~".to_vec());
    assert_eq!(t.handle_event(&ctrl('c')), vec![0x03]);
    assert_eq!(t.handle_event(&ctrl('z')), vec![0x1a]);
    assert_eq!(t.handle_event(&ctrl('a')), vec![0x01]);
    assert!(t.handle_event(&key(Key::Other)).is_empty());
    assert!(t.handle_event(&key(Key::Letter('q'))).is_empty());
    assert_eq!(t.handle_event(&text(":wq é")), ":wq é".as_bytes().to_vec());
    assert_eq!(t.command_text(), "");
}

#[test]
fn output_cap_keeps_most_recent() {
    let mut t = active_session();
    let first: String = std::iter::repeat('a').take(OUTPUT_CAP - 10).collect();
    t.read_output(first.as_bytes());
    assert_eq!(t.output_len(), OUTPUT_CAP - 10);
    t.read_output(b"0123456789ABCDEFGHIJ");
    assert_eq!(t.output_len(), OUTPUT_CAP);
    let out = t.output_text();
    assert!(out.ends_with("0123456789ABCDEFGHIJ"));
    assert_eq!(out.chars().filter(|&c| c == 'a').count(), OUTPUT_CAP - 20);
}

#[test]
fn output_cap_on_one_large_chunk() {
    let mut t = active_session();
    let big: String = (0..OUTPUT_CAP + 500).map(|i| if i < 500 { 'x' } else { 'y' }).collect();
    t.read_output(big.as_bytes());
    assert_eq!(t.output_len(), OUTPUT_CAP);
    assert!(t.output_text().chars().all(|c| c == 'y'));
}

#[test]
fn invalid_utf8_becomes_replacement_character() {
    let mut t = active_session();
    t.read_output(&[b'o', b'k', 0xff, 0xc3, 0xa9]);
    assert_eq!(t.output_text(), "ok\u{fffd}é");
}

#[test]
fn segments_use_the_pane_palette() {
    let mut t = active_session();
    t.read_output(b"\x1b[31merr\x1b[0m ok");
    let segs = t.segments();
    assert_eq!(segs.len(), 2);
    assert_eq!(segs[0].text, "err");
    assert_eq!(segs[0].color, palette().alert);
    assert_eq!(segs[1].text, " ok");
    assert_eq!(segs[1].color, palette().on_dark);
    t.set_dark_mode(false);
    assert_eq!(t.segments()[1].color, palette().on_light);
}

#[test]
fn cursor_blinks_after_half_a_second() {
    let mut t = Terminal::new(0, 10, 10, palette(), false, 1000);
    t.tick_cursor(1500);
    assert!(t.cursor_visible());
    t.tick_cursor(1501);
    assert!(!t.cursor_visible());
    t.tick_cursor(1900);
    assert!(!t.cursor_visible());
    t.tick_cursor(2002);
    assert!(t.cursor_visible());
    t.tick_cursor(10);
    assert!(t.cursor_visible());
}

#[test]
fn unicode_blank_lines_are_not_remembered() {
    let mut t = active_session();
    submit(&mut t, "\u{a0}\u{3000}\u{2003}\u{85}");
    submit(&mut t, "\u{2028}\u{205f}\u{1680}");
    assert_eq!(t.history_len(), 0);
    submit(&mut t, "\u{a0}x");
    assert_eq!(t.history_len(), 1);
}

#[test]
fn output_cap_over_many_reads() {
    let mut t = active_session();
    let chunk: String = (0..1000).map(|i| char::from(b'a' + (i % 26) as u8)).collect();
    let mut all = String::new();
    for k in 0..60 {
        let piece = format!("{}{}", k, chunk);
        t.read_output(piece.as_bytes());
        all.push_str(&piece);
    }
    assert!(all.len() > OUTPUT_CAP);
    assert_eq!(t.output_len(), OUTPUT_CAP);
    assert_eq!(t.output_text(), all[all.len() - OUTPUT_CAP..].to_string());
}

#[test]
fn leaving_the_alternate_screen_keeps_the_cap() {
    let mut t = active_session();
    let big: String = std::iter::repeat('z').take(OUTPUT_CAP).collect();
    t.read_output(big.as_bytes());
    t.read_output(b"\x1b[?1049l");
    assert_eq!(t.output_len(), OUTPUT_CAP);
    assert!(t.output_text().ends_with("\x1b[?1049l"));
}

#[test]
fn title_bar_requests_become_pane_requests() {
    assert_eq!(TerminalResponse::from_header_action(HeaderAction::Nothing), TerminalResponse::Nothing);
    assert_eq!(TerminalResponse::from_header_action(HeaderAction::CloseTerminal), TerminalResponse::CloseMe);
    assert_eq!(TerminalResponse::from_header_action(HeaderAction::MaximizeTerminal), TerminalResponse::MaximizeMe);
    assert_eq!(TerminalResponse::from_header_action(HeaderAction::MinimizeTerminal), TerminalResponse::MinimizeMe);
}
