//! Session engine of a multi-pane terminal emulator: an ANSI/VT output
//! decoder, a per-pane shell session with line editing and history, and a
//! pane multiplexer that arranges sessions into a two-row grid.
pub mod palette;
pub mod text;
pub mod parser;
pub mod header;
pub mod terminal;
pub mod manager;
pub mod screen;
