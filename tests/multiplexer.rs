use egui::Color32;
use sigmaterm::header::HeaderAction;
use sigmaterm::manager::{TerminalManager, FIRST_HUE, HUE_STEP, MAX_TERMINALS};
use sigmaterm::palette::ColorSet;
use sigmaterm::terminal::TerminalResponse;

fn palette(tag: u8) -> ColorSet {
    ColorSet {
        primary: Color32::from_rgb(tag, 1, 0),
        light: Color32::from_rgb(tag, 2, 0),
        dark: Color32::from_rgb(tag, 3, 0),
        on_primary: Color32::from_rgb(tag, 4, 0),
        on_light: Color32::from_rgb(tag, 5, 0),
        on_dark: Color32::from_rgb(tag, 6, 0),
        alert: Color32::from_rgb(tag, 7, 0),
        warning: Color32::from_rgb(tag, 8, 0),
        alternate_1: Color32::from_rgb(tag, 9, 0),
        alternate_2: Color32::from_rgb(tag, 10, 0),
        alternate_3: Color32::from_rgb(tag, 11, 0),
    }
}

fn with_panes(n: usize) -> TerminalManager {
    let mut m = TerminalManager::new();
    for i in 0..n {
        assert_eq!(m.add_terminal(800, 600, palette(i as u8), 0), Some(i));
    }
    m
}

fn ids(m: &TerminalManager) -> Vec<usize> {
    (0..m.num_terminals()).map(|i| m.terminal(i).id()).collect()
}

fn sizes(m: &TerminalManager) -> Vec<(u32, u32)> {
    (0..m.num_terminals()).map(|i| (m.terminal(i).width(), m.terminal(i).height())).collect()
}

#[test]
fn arrangement_for_one_to_six_panes() {
    for n in 1..=6usize {
        let m = with_panes(n);
        let top = if n <= 2 { n } else { n / 2 };
        assert_eq!(m.top_row_terminals().clone(), (0..top).collect::<Vec<_>>());
        assert_eq!(m.bottom_row_terminals().clone(), (top..n).collect::<Vec<_>>());
        let mut all: Vec<usize> = m.top_row_terminals().clone();
        all.extend(m.bottom_row_terminals().iter().copied());
        assert_eq!(all, (0..n).collect::<Vec<_>>());
    }
}

#[test]
fn first_pane_is_active() {
    let m = with_panes(3);
    assert_eq!(m.active_terminal_id(), Some(0));
    assert!(m.terminal(0).is_active());
    assert!(!m.terminal(1).is_active());
    assert!(!m.terminal(2).is_active());
}

#[test]
fn seventh_add_is_rejected() {
    let mut m = with_panes(MAX_TERMINALS);
    let before = ids(&m);
    assert_eq!(m.add_terminal(800, 600, palette(9), 0), None);
    assert_eq!(m.num_terminals(), MAX_TERMINALS);
    assert_eq!(ids(&m), before);
}

#[test]
fn removal_renumbers_and_follows_the_active_pane() {
    let mut m = with_panes(3);
    m.set_active_terminal(2);
    let removed = m.remove_terminal(1, 800, 600).expect("slot 1 exists");
    assert_eq!(removed.id(), 1);
    assert_eq!(ids(&m), vec![0, 1]);
    assert_eq!(m.active_terminal_id(), Some(1));
    assert!(m.terminal(1).is_active());
    assert_eq!(m.terminal(1).get_primary_color(), palette(2).primary);
}

#[test]
fn removing_the_active_pane_activates_the_first() {
    let mut m = with_panes(3);
    m.set_active_terminal(1);
    assert!(m.remove_terminal(1, 800, 600).is_some());
    assert_eq!(m.active_terminal_id(), Some(0));
    assert!(m.terminal(0).is_active());
    assert!(!m.terminal(1).is_active());
}

#[test]
fn removing_the_last_pane_leaves_none_active() {
    let mut m = with_panes(1);
    assert!(m.remove_terminal(0, 800, 600).is_some());
    assert_eq!(m.num_terminals(), 0);
    assert_eq!(m.active_terminal_id(), None);
    assert!(m.top_row_terminals().is_empty());
}

#[test]
fn removing_a_missing_slot_changes_nothing() {
    let mut m = with_panes(2);
    assert!(m.remove_terminal(5, 800, 600).is_none());
    assert_eq!(ids(&m), vec![0, 1]);
}

#[test]
fn grid_sizes() {
    let m = with_panes(2);
    assert_eq!(sizes(&m), vec![(398, 600), (398, 600)]);
    let m = with_panes(3);
    assert_eq!(sizes(&m), vec![(798, 300), (398, 300), (398, 300)]);
    let mut m = with_panes(5);
    assert_eq!(sizes(&m), vec![(398, 300), (398, 300), (264, 300), (264, 300), (264, 300)]);
    m.update(3, 7);
    assert_eq!(sizes(&m)[0], (0, 3));
}

#[test]
fn hue_moves_on_per_pane() {
    let m = with_panes(2);
    assert_eq!(m.next_hue(), FIRST_HUE + 2 * HUE_STEP);
}

#[test]
fn maximise_and_restore() {
    let mut m = with_panes(3);
    assert!(m.show_all());
    assert!(m.dispatch(2, TerminalResponse::MaximizeMe, 800, 600).is_none());
    assert!(!m.show_all());
    assert_eq!(m.active_terminal_id(), Some(2));
    m.fit_single(800, 600);
    assert_eq!((m.terminal(2).width(), m.terminal(2).height()), (800, 560));
    m.dispatch(2, TerminalResponse::MinimizeMe, 800, 600);
    assert!(m.show_all());
    assert_eq!(m.active_terminal_id(), Some(2));
}

#[test]
fn click_and_close_through_dispatch() {
    let mut m = with_panes(2);
    m.dispatch(1, TerminalResponse::WasClicked, 800, 600);
    assert_eq!(m.active_terminal_id(), Some(1));
    assert!(m.dispatch(0, TerminalResponse::Nothing, 800, 600).is_none());
    let gone = m.dispatch(0, TerminalResponse::CloseMe, 800, 600);
    assert!(gone.is_some());
    assert_eq!(ids(&m), vec![0]);
    assert_eq!(m.active_terminal_id(), Some(0));
    assert_eq!(sizes(&m), vec![(798, 600)]);
}

#[test]
fn new_panes_in_single_view_start_maximised() {
    let mut m = with_panes(1);
    m.set_show_all(false);
    m.add_terminal(800, 600, palette(1), 0);
    assert!(!m.terminal(0).is_maximized());
    assert!(m.terminal(1).is_maximized());
}

#[test]
fn input_reaches_only_the_active_pane() {
    let mut m = with_panes(2);
    let ev = sigmaterm::terminal::InputEvent::Text("ls".to_string());
    assert!(m.handle_event(0, &ev).is_empty());
    assert!(m.handle_event(1, &ev).is_empty());
    let enter = sigmaterm::terminal::InputEvent::Key { key: sigmaterm::terminal::Key::Enter, ctrl: false };
    assert_eq!(m.handle_event(0, &enter), b"ls\n".to_vec());
    assert!(m.handle_event(1, &enter).is_empty());
    assert_eq!(m.terminal(1).command_text(), "");
}

#[test]
fn output_and_dark_mode_per_pane() {
    let mut m = with_panes(2);
    m.read_output(1, b"hi");
    assert_eq!(m.terminal(1).output_text(), "hi");
    assert_eq!(m.terminal(0).output_text(), "");
    m.set_dark_mode(false);
    assert_eq!(m.terminal(0).get_text_color(), palette(0).on_light);
    assert_eq!(m.terminal(1).get_text_color(), palette(1).on_light);
}

#[test]
fn header_round_trip_through_the_manager() {
    let mut m = with_panes(1);
    let mut h = m.terminal(0).header().clone();
    assert_eq!(h.toggle_maximized(), HeaderAction::MaximizeTerminal);
    h.set_title("build".to_string());
    m.set_header(0, h);
    assert_eq!(m.terminal(0).get_title(), "build");
    assert!(m.terminal(0).header().is_maximized());
    m.tick_cursor(0, 501);
    assert!(!m.terminal(0).cursor_visible());
}
