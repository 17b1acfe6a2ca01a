//! State of a pane's title bar: its title, colours, and the maximise toggle.
use vstd::prelude::*;
use crate::palette::{ColorMode, ColorSet};

verus! {

/// What the title bar asks of the pane that owns it.
#[derive(Debug, Clone, Copy, PartialEq, Eq, Structural)]
pub enum HeaderAction {
    Nothing,
    CloseTerminal,
    MaximizeTerminal,
    MinimizeTerminal,
}

/// The emoji picker of a title bar; it holds no state yet.
#[derive(Debug, Clone, Copy, PartialEq, Eq, Structural)]
pub struct EmojiPicker {}

impl EmojiPicker {
    pub fn new() -> (r: EmojiPicker)
        ensures
            r == (EmojiPicker {}),
    {
        EmojiPicker {}
    }
}

impl Default for EmojiPicker {
    fn default() -> (r: EmojiPicker)
        ensures
            r == (EmojiPicker {}),
    {
        EmojiPicker {}
    }
}

/// A choice among a few palettes.
pub struct ColorPicker {
    pub color_sets: Vec<ColorSet>,
    pub selected_index: usize,
}

impl ColorPicker {
    /// A picker over `color_sets`, with the first one selected.
    pub fn new(color_sets: Vec<ColorSet>) -> (r: ColorPicker)
        ensures
            r.color_sets@ == color_sets@,
            r.selected_index == 0,
    {
        ColorPicker { color_sets, selected_index: 0 }
    }
}

/// Title bar of a pane.
#[derive(Clone)]
pub struct Header {
    pub emoji_picker_open: bool,
    pub color_picker_open: bool,
    pub title: String,
    pub color_set: ColorSet,
    pub color_mode: ColorMode,
    pub is_editing_title: bool,
    pub is_maximized: bool,
}

impl Header {
    /// Same title, colours and maximise state; title editing may differ.
    pub open spec fn same_look(&self, other: &Header) -> bool {
        &&& self.title@ == other.title@
        &&& self.color_set == other.color_set
        &&& self.color_mode == other.color_mode
        &&& self.is_maximized == other.is_maximized
    }

    /// A dark title bar in `color_set`, titled "Untitled Terminal", not being edited.
    pub fn new(color_set: ColorSet, is_maximized: bool) -> (r: Header)
        ensures
            r.title@ == "Untitled Terminal"@,
            r.color_set == color_set,
            r.color_mode == ColorMode::Dark,
            !r.is_editing_title,
            !r.emoji_picker_open,
            r.is_maximized == is_maximized,
    {
        Header {
            emoji_picker_open: false,
            color_picker_open: false,
            title: String::from_str("Untitled Terminal"),
            color_set,
            color_mode: ColorMode::Dark,
            is_editing_title: false,
            is_maximized,
        }
    }

    pub fn set_dark_mode(&mut self, dark_mode: bool)
        ensures
            final(self).color_mode == (if dark_mode { ColorMode::Dark } else { ColorMode::Light }),
            final(self).color_set == old(self).color_set,
            final(self).title@ == old(self).title@,
            final(self).is_editing_title == old(self).is_editing_title,
            final(self).is_maximized == old(self).is_maximized,
    {
        self.color_mode = if dark_mode {
            ColorMode::Dark
        } else {
            ColorMode::Light
        };
    }

    pub fn is_editing_title(&self) -> (r: bool)
        ensures
            r == self.is_editing_title,
    {
        self.is_editing_title
    }

    pub fn start_editing_title(&mut self)
        ensures
            final(self).is_editing_title,
            final(self).color_set == old(self).color_set,
            final(self).color_mode == old(self).color_mode,
            final(self).title@ == old(self).title@,
            final(self).is_maximized == old(self).is_maximized,
    {
        self.is_editing_title = true;
    }

    pub fn stop_editing_title(&mut self)
        ensures
            !final(self).is_editing_title,
            final(self).color_set == old(self).color_set,
            final(self).color_mode == old(self).color_mode,
            final(self).title@ == old(self).title@,
            final(self).is_maximized == old(self).is_maximized,
    {
        self.is_editing_title = false;
    }

    pub fn toggle_emoji_picker(&mut self)
        ensures
            final(self).emoji_picker_open == !old(self).emoji_picker_open,
            final(self).color_set == old(self).color_set,
            final(self).color_mode == old(self).color_mode,
            final(self).title@ == old(self).title@,
            final(self).is_editing_title == old(self).is_editing_title,
            final(self).is_maximized == old(self).is_maximized,
    {
        self.emoji_picker_open = !self.emoji_picker_open;
    }

    /// Background colour of the pane in its current mode.
    pub fn get_terminal_bg_color_imm(&self) -> (r: egui::Color32)
        ensures
            r == self.color_set.spec_background(self.color_mode),
    {
        self.color_set.background(self.color_mode)
    }

    /// Colour of plain text in the pane in its current mode.
    pub fn get_terminal_text_color_imm(&self) -> (r: egui::Color32)
        ensures
            r == self.color_set.spec_text_color(self.color_mode),
    {
        self.color_set.text_color(self.color_mode)
    }

    pub fn get_primary_color(&mut self) -> (r: egui::Color32)
        ensures
            r == old(self).color_set.primary,
            *final(self) == *old(self),
    {
        self.color_set.primary
    }

    pub fn get_primary_color_imm(&self) -> (r: egui::Color32)
        ensures
            r == self.color_set.primary,
    {
        self.color_set.primary
    }

    pub fn get_title(&self) -> (r: &str)
        ensures
            r@ == self.title@,
    {
        self.title.as_str()
    }

    pub fn set_title(&mut self, title: String)
        ensures
            final(self).title@ == title@,
            final(self).color_set == old(self).color_set,
            final(self).color_mode == old(self).color_mode,
            final(self).is_editing_title == old(self).is_editing_title,
            final(self).is_maximized == old(self).is_maximized,
    {
        self.title = title;
    }

    pub fn set_color_set(&mut self, color_set: ColorSet)
        ensures
            final(self).color_set == color_set,
            final(self).color_mode == old(self).color_mode,
            final(self).title@ == old(self).title@,
            final(self).is_editing_title == old(self).is_editing_title,
            final(self).is_maximized == old(self).is_maximized,
    {
        self.color_set = color_set;
    }

    pub fn set_maximized(&mut self, is_maximized: bool)
        ensures
            final(self).is_maximized == is_maximized,
            final(self).color_set == old(self).color_set,
            final(self).color_mode == old(self).color_mode,
            final(self).title@ == old(self).title@,
            final(self).is_editing_title == old(self).is_editing_title,
    {
        self.is_maximized = is_maximized;
    }

    pub fn is_maximized(&self) -> (r: bool)
        ensures
            r == self.is_maximized,
    {
        self.is_maximized
    }

    /// The maximise/restore button: a maximised pane asks to be restored to
    /// the grid, any other asks to be maximised; the flag flips either way.
    pub fn toggle_maximized(&mut self) -> (r: HeaderAction)
        ensures
            final(self).is_maximized == !old(self).is_maximized,
            r == (if old(self).is_maximized { HeaderAction::MinimizeTerminal } else { HeaderAction::MaximizeTerminal }),
            final(self).color_set == old(self).color_set,
            final(self).color_mode == old(self).color_mode,
            final(self).title@ == old(self).title@,
            final(self).is_editing_title == old(self).is_editing_title,
    {
        if self.is_maximized {
            self.is_maximized = false;
            HeaderAction::MinimizeTerminal
        } else {
            self.is_maximized = true;
            HeaderAction::MaximizeTerminal
        }
    }
}

} // verus!
