use egui::Color32;
use sigmaterm::header::{ColorPicker, EmojiPicker, Header, HeaderAction};
use sigmaterm::palette::{ColorMode, ColorSet};

fn palette() -> ColorSet {
    ColorSet {
        primary: Color32::from_rgb(1, 0, 0),
        light: Color32::from_rgb(2, 0, 0),
        dark: Color32::from_rgb(3, 0, 0),
        on_primary: Color32::from_rgb(4, 0, 0),
        on_light: Color32::from_rgb(5, 0, 0),
        on_dark: Color32::from_rgb(6, 0, 0),
        alert: Color32::from_rgb(7, 0, 0),
        warning: Color32::from_rgb(8, 0, 0),
        alternate_1: Color32::from_rgb(9, 0, 0),
        alternate_2: Color32::from_rgb(10, 0, 0),
        alternate_3: Color32::from_rgb(11, 0, 0),
    }
}

#[test]
fn colours_follow_the_mode() {
    let mut h = Header::new(palette(), false);
    assert_eq!(h.color_mode, ColorMode::Dark);
    assert_eq!(h.get_terminal_bg_color_imm(), palette().dark);
    assert_eq!(h.get_terminal_text_color_imm(), palette().on_dark);
    h.set_dark_mode(false);
    assert_eq!(h.get_terminal_bg_color_imm(), palette().light);
    assert_eq!(h.get_terminal_text_color_imm(), palette().on_light);
    assert_eq!(h.get_primary_color_imm(), palette().primary);
    assert_eq!(h.get_primary_color(), palette().primary);
}

#[test]
fn maximise_button_toggles() {
    let mut h = Header::new(palette(), false);
    assert_eq!(h.toggle_maximized(), HeaderAction::MaximizeTerminal);
    assert!(h.is_maximized());
    assert_eq!(h.toggle_maximized(), HeaderAction::MinimizeTerminal);
    assert!(!h.is_maximized());
}

#[test]
fn title_editing() {
    let mut h = Header::new(palette(), true);
    assert_eq!(h.get_title(), "Untitled Terminal");
    assert!(!h.is_editing_title());
    h.start_editing_title();
    assert!(h.is_editing_title());
    h.set_title("logs".to_string());
    h.stop_editing_title();
    assert!(!h.is_editing_title());
    assert_eq!(h.get_title(), "logs");
}

#[test]
fn pickers() {
    let mut h = Header::new(palette(), false);
    h.toggle_emoji_picker();
    assert!(h.emoji_picker_open);
    assert_eq!(EmojiPicker::default(), EmojiPicker::new());
    let p = ColorPicker::new(vec![palette(), palette()]);
    assert_eq!(p.color_sets.len(), 2);
    assert_eq!(p.selected_index, 0);
}
