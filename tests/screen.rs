use egui::Color32;
use sigmaterm::palette::ColorSet;
use sigmaterm::parser::{parse_ansi_output, TerminalOutput};
use sigmaterm::screen::{raw_text, remove_all, split_lines};
use sigmaterm::terminal::Terminal;

fn palette() -> ColorSet {
    ColorSet {
        primary: Color32::from_rgb(1, 0, 0),
        light: Color32::from_rgb(2, 0, 0),
        dark: Color32::from_rgb(3, 0, 0),
        on_primary: Color32::from_rgb(4, 0, 0),
        on_light: Color32::from_rgb(5, 0, 0),
        on_dark: Color32::from_rgb(6, 0, 0),
        alert: Color32::from_rgb(7, 0, 0),
        warning: Color32::from_rgb(8, 0, 0),
        alternate_1: Color32::from_rgb(9, 0, 0),
        alternate_2: Color32::from_rgb(10, 0, 0),
        alternate_3: Color32::from_rgb(11, 0, 0),
    }
}

fn chars(s: &str) -> Vec<char> {
    s.chars().collect()
}

fn texts(line: &[TerminalOutput]) -> Vec<String> {
    line.iter().map(|t| t.text.clone()).collect()
}

#[test]
fn remove_all_matches_from_the_left() {
    let r = remove_all(&chars("aaab-aab"), &chars("aa"));
    assert_eq!(r.iter().collect::<String>(), "ab-b");
    let r = remove_all(&chars("abc"), &chars(""));
    assert_eq!(r.iter().collect::<String>(), "abc");
}

#[test]
fn raw_text_drops_mode_switches() {
    let s = chars("\x1b[?1049h\x1b[?25lvim\x1b[?25h\x1b[2J~\x1b[?1049l");
    assert_eq!(raw_text(&s), "vim\x1b[2J~");
}

#[test]
fn lines_break_at_cr_lf_and_crlf() {
    let segs = parse_ansi_output("one\r\ntwo\rthree\nfour", &palette(), Color32::WHITE);
    let (done, cur) = split_lines(&segs);
    let done: Vec<Vec<String>> = done.iter().map(|l| texts(l)).collect();
    assert_eq!(done, vec![vec!["one".to_string()], vec!["two".to_string()], vec!["three".to_string()]]);
    assert_eq!(texts(&cur), vec!["four".to_string()]);
}

#[test]
fn styled_runs_share_a_line() {
    let p = palette();
    let segs = parse_ansi_output("$ \x1b[31mred\x1b[0m ok\n\nnext", &p, Color32::WHITE);
    let (done, cur) = split_lines(&segs);
    assert_eq!(done.len(), 2);
    assert_eq!(texts(&done[0]), vec!["$ ".to_string(), "red".to_string(), " ok".to_string()]);
    assert_eq!(done[0][1].color, p.alert);
    assert!(done[1].is_empty());
    assert_eq!(texts(&cur), vec!["next".to_string()]);
}

#[test]
fn trailing_newline_leaves_an_empty_current_line() {
    let segs = parse_ansi_output("done\n", &palette(), Color32::WHITE);
    let (done, cur) = split_lines(&segs);
    assert_eq!(done.len(), 1);
    assert!(cur.is_empty());
    assert!(split_lines(&Vec::new()).0.is_empty());
}

#[test]
fn session_lines_and_raw_text() {
    let mut t = Terminal::new(0, 10, 10, palette(), false, 0);
    t.append_output("a\r\nb");
    let (done, cur) = t.lines();
    assert_eq!(texts(&done[0]), vec!["a".to_string()]);
    assert_eq!(texts(&cur), vec!["b".to_string()]);
    t.append_output("\x1b[?1049hfull");
    assert_eq!(t.raw_text(), "a\r\nbfull");
}
