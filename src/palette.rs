//! Named colour roles of a pane and the light/dark colour mode.
use vstd::prelude::*;

verus! {

/// An RGBA colour of egui. The library never looks inside one: it only
/// carries the colours that the caller's palette hands it.
#[verifier::external_type_specification]
#[verifier::external_body]
pub struct ExColor32(egui::Color32);

/// The semantic colours of one pane.
#[derive(Clone, Copy)]
pub struct ColorSet {
    pub primary: egui::Color32,
    pub light: egui::Color32,
    pub dark: egui::Color32,
    pub on_primary: egui::Color32,
    pub on_light: egui::Color32,
    pub on_dark: egui::Color32,
    pub alert: egui::Color32,
    pub warning: egui::Color32,
    pub alternate_1: egui::Color32,
    pub alternate_2: egui::Color32,
    pub alternate_3: egui::Color32,
}

/// Whether a pane is drawn on its light or on its dark background.
#[derive(Clone, Copy, PartialEq, Eq, Structural, Debug)]
pub enum ColorMode {
    Light,
    Dark,
}

impl ColorSet {
    pub open spec fn spec_background(&self, mode: ColorMode) -> egui::Color32 {
        match mode {
            ColorMode::Dark => self.dark,
            ColorMode::Light => self.light,
        }
    }

    pub open spec fn spec_text_color(&self, mode: ColorMode) -> egui::Color32 {
        match mode {
            ColorMode::Dark => self.on_dark,
            ColorMode::Light => self.on_light,
        }
    }

    /// Background colour of a pane in the given mode.
    pub fn background(&self, mode: ColorMode) -> (r: egui::Color32)
        ensures
            r == self.spec_background(mode),
    {
        match mode {
            ColorMode::Dark => self.dark,
            ColorMode::Light => self.light,
        }
    }

    /// Colour of plain text on the pane's background in the given mode.
    pub fn text_color(&self, mode: ColorMode) -> (r: egui::Color32)
        ensures
            r == self.spec_text_color(mode),
    {
        match mode {
            ColorMode::Dark => self.on_dark,
            ColorMode::Light => self.on_light,
        }
    }
}

} // verus!
