//! One pane's shell session, apart from the process itself: the output it
//! has produced, the line being edited, the command history, raw mode, and
//! the blinking cursor. Reading from and writing to the child process is the
//! caller's part: output comes in through `read_output`, and `handle_event`
//! returns the bytes that are to be written to the child.
use vstd::prelude::*;
use crate::header::{Header, HeaderAction};
use crate::palette::ColorSet;
use crate::parser::{decode, parse_ansi_chars, runs_of, TerminalOutput, ESC};
use crate::screen::{lines_of, lines_view, raw_text, raw_view, split_lines};
use crate::text::{chars_of, string_of};

verus! {

/// Most characters of output that a session keeps; older ones are dropped.
pub const OUTPUT_CAP: usize = 50000;

/// Milliseconds between two flips of the cursor.
pub const BLINK_MS: u64 = 500;

/// What a pane asks of the multiplexer after a frame.
#[derive(Debug, Clone, Copy, PartialEq, Eq, Structural)]
pub enum TerminalResponse {
    Nothing,
    WasClicked,
    CloseMe,
    MaximizeMe,
    MinimizeMe,
}

/// What a pane asks of the multiplexer when its title bar asked `action`.
pub open spec fn spec_response_to(action: HeaderAction) -> TerminalResponse {
    match action {
        HeaderAction::Nothing => TerminalResponse::Nothing,
        HeaderAction::CloseTerminal => TerminalResponse::CloseMe,
        HeaderAction::MaximizeTerminal => TerminalResponse::MaximizeMe,
        HeaderAction::MinimizeTerminal => TerminalResponse::MinimizeMe,
    }
}

impl TerminalResponse {
    /// The pane's request for a request of its title bar: close, maximise or
    /// restore the pane, or nothing.
    pub fn from_header_action(action: HeaderAction) -> (r: TerminalResponse)
        ensures
            r == spec_response_to(action),
    {
        match action {
            HeaderAction::Nothing => TerminalResponse::Nothing,
            HeaderAction::CloseTerminal => TerminalResponse::CloseMe,
            HeaderAction::MaximizeTerminal => TerminalResponse::MaximizeMe,
            HeaderAction::MinimizeTerminal => TerminalResponse::MinimizeMe,
        }
    }
}

/// A key of the keyboard, as far as a session tells keys apart.
/// `Letter` holds a lower-case ASCII letter.
#[derive(Debug, Clone, Copy, PartialEq, Eq, Structural)]
pub enum Key {
    Enter,
    Backspace,
    Tab,
    Escape,
    ArrowUp,
    ArrowDown,
    ArrowLeft,
    ArrowRight,
    Home,
    End,
    PageUp,
    PageDown,
    Delete,
    Letter(char),
    Other,
}

/// One keyboard event: typed text, or a key pressed with or without Ctrl.
pub enum InputEvent {
    Text(String),
    Key { key: Key, ctrl: bool },
}

/// The state of a session, as the contracts speak of it.
pub struct SessionView {
    pub id: nat,
    pub active: bool,
    pub raw: bool,
    pub output: Seq<char>,
    pub command: Seq<char>,
    pub history: Seq<Seq<char>>,
    pub cursor: Option<nat>,
    pub cursor_visible: bool,
    pub last_toggle: nat,
    pub width: nat,
    pub height: nat,
    pub maximized: bool,
}

// ---------------------------------------------------------------- bytes out

/// UTF-8 encoding of one character.
pub open spec fn utf8_char(c: char) -> Seq<u8> {
    let v = c as u32 as int;
    if v < 0x80 {
        seq![v as u8]
    } else if v < 0x800 {
        seq![(0xC0 + v / 64) as u8, (0x80 + v % 64) as u8]
    } else if v < 0x10000 {
        seq![(0xE0 + v / 4096) as u8, (0x80 + (v / 64) % 64) as u8, (0x80 + v % 64) as u8]
    } else {
        seq![
            (0xF0 + v / 262144) as u8,
            (0x80 + (v / 4096) % 64) as u8,
            (0x80 + (v / 64) % 64) as u8,
            (0x80 + v % 64) as u8,
        ]
    }
}

/// UTF-8 encoding of a text.
pub open spec fn utf8(s: Seq<char>) -> Seq<u8>
    decreases s.len(),
{
    if s.len() == 0 {
        Seq::empty()
    } else {
        utf8(s.drop_last()) + utf8_char(s.last())
    }
}

/// The control code of Ctrl held with a letter (Ctrl+A is 1, Ctrl+Z is 26).
pub open spec fn ctrl_code(c: char) -> Seq<u8> {
    if 'a' <= c && c <= 'z' {
        seq![(c as u32 - 0x60) as u8]
    } else {
        Seq::empty()
    }
}

/// The escape sequence of a navigation or editing key; empty for other keys.
pub open spec fn key_sequence(key: Key) -> Seq<u8> {
    match key {
        Key::Tab => seq![0x09u8],
        Key::Escape => seq![0x1bu8],
        Key::ArrowUp => seq![0x1bu8, 0x5bu8, 0x41u8],
        Key::ArrowDown => seq![0x1bu8, 0x5bu8, 0x42u8],
        Key::ArrowRight => seq![0x1bu8, 0x5bu8, 0x43u8],
        Key::ArrowLeft => seq![0x1bu8, 0x5bu8, 0x44u8],
        Key::Home => seq![0x1bu8, 0x5bu8, 0x48u8],
        Key::End => seq![0x1bu8, 0x5bu8, 0x46u8],
        Key::PageUp => seq![0x1bu8, 0x5bu8, 0x35u8, 0x7eu8],
        Key::PageDown => seq![0x1bu8, 0x5bu8, 0x36u8, 0x7eu8],
        Key::Delete => seq![0x1bu8, 0x5bu8, 0x33u8, 0x7eu8],
        _ => Seq::empty(),
    }
}

/// The bytes that a key sends to a program in raw mode.
pub open spec fn raw_key_bytes(key: Key, ctrl: bool) -> Seq<u8> {
    match key {
        Key::Enter => seq![0x0du8],
        Key::Backspace => seq![0x7fu8],
        Key::Letter(c) => if ctrl {
            ctrl_code(c)
        } else {
            Seq::empty()
        },
        _ => key_sequence(key),
    }
}

// ------------------------------------------------------------- line editing

/// Unicode White_Space: the characters that `str::trim` removes.
pub open spec fn is_space(c: char) -> bool {
    ('\u{9}' <= c && c <= '\u{d}') || c == '\u{20}' || c == '\u{85}' || c == '\u{a0}' || c == '\u{1680}'
        || ('\u{2000}' <= c && c <= '\u{200a}') || c == '\u{2028}' || c == '\u{2029}' || c == '\u{202f}'
        || c == '\u{205f}' || c == '\u{3000}'
}

/// A line of white space only (or none at all), which history does not keep.
pub open spec fn is_blank(s: Seq<char>) -> bool {
    forall|k: int| 0 <= k < s.len() ==> #[trigger] is_space(s[k])
}

/// Up: the cursor moves to the next older entry (from the newest when it is
/// unset, staying at the oldest), and that entry becomes the line.
pub open spec fn history_up(v: SessionView) -> SessionView {
    if v.history.len() == 0 {
        v
    } else {
        let i: nat = match v.cursor {
            None => (v.history.len() - 1) as nat,
            Some(c) => if c > 0 {
                (c - 1) as nat
            } else {
                0
            },
        };
        SessionView { command: v.history[i as int], cursor: Some(i), ..v }
    }
}

/// Down: the cursor moves to the next newer entry, which becomes the line;
/// past the newest the line is cleared and the cursor unset.
pub open spec fn history_down(v: SessionView) -> SessionView {
    match v.cursor {
        None => v,
        Some(c) => if c + 1 < v.history.len() {
            SessionView { command: v.history[c + 1int], cursor: Some((c + 1) as nat), ..v }
        } else {
            SessionView { command: Seq::empty(), cursor: None, ..v }
        },
    }
}

/// The session after a key in line-edit mode, and the bytes sent to the child.
pub open spec fn line_key(v: SessionView, key: Key, ctrl: bool) -> (SessionView, Seq<u8>) {
    match key {
        Key::Enter => (
            SessionView {
                command: Seq::empty(),
                history: if is_blank(v.command) {
                    v.history
                } else {
                    v.history.push(v.command)
                },
                cursor: None,
                ..v
            },
            utf8(v.command).push(0x0au8),
        ),
        Key::Backspace => (
            SessionView {
                command: if v.command.len() > 0 {
                    v.command.drop_last()
                } else {
                    v.command
                },
                cursor: None,
                ..v
            },
            Seq::empty(),
        ),
        Key::ArrowUp => (history_up(v), Seq::empty()),
        Key::ArrowDown => (history_down(v), Seq::empty()),
        Key::Letter(c) => if ctrl && c == 'c' {
            (SessionView { command: Seq::empty(), ..v }, seq![0x03u8])
        } else if ctrl && (c == 'd' || c == 'l') {
            (v, ctrl_code(c))
        } else {
            (v, Seq::empty())
        },
        _ => (v, key_sequence(key)),
    }
}

/// The session after an input event, and the bytes sent to the child. A
/// session that is inactive, or whose title is being edited, ignores input.
pub open spec fn after_event(v: SessionView, editing_title: bool, ev: InputEvent) -> (SessionView, Seq<u8>) {
    if !v.active || editing_title {
        (v, Seq::empty())
    } else if v.raw {
        match ev {
            InputEvent::Text(t) => (v, utf8(t@)),
            InputEvent::Key { key, ctrl } => (v, raw_key_bytes(key, ctrl)),
        }
    } else {
        match ev {
            InputEvent::Text(t) => (SessionView { command: v.command + t@, cursor: None, ..v }, Seq::empty()),
            InputEvent::Key { key, ctrl } => line_key(v, key, ctrl),
        }
    }
}

// ------------------------------------------------------------------- output

/// Switch to the alternate screen, which full-screen programs use.
pub open spec fn alt_screen_enter() -> Seq<char> {
    seq![ESC, '[', '?', '1', '0', '4', '9', 'h']
}

/// Switch back from the alternate screen.
pub open spec fn alt_screen_exit() -> Seq<char> {
    seq![ESC, '[', '?', '1', '0', '4', '9', 'l']
}

pub open spec fn cursor_hide() -> Seq<char> {
    seq![ESC, '[', '?', '2', '5', 'l']
}

pub open spec fn contains(hay: Seq<char>, needle: Seq<char>) -> bool {
    exists|k: int| 0 <= k && k + needle.len() <= hay.len() && #[trigger] hay.subrange(k, k + needle.len()) == needle
}

/// The last `n` characters of `s`, or all of it when it is shorter.
pub open spec fn keep_last(s: Seq<char>, n: nat) -> Seq<char> {
    if s.len() > n {
        s.subrange(s.len() - n, s.len() as int)
    } else {
        s
    }
}

/// The session after the child printed `text`. Leaving the alternate screen
/// ends raw mode; entering it, or hiding the cursor, starts raw mode. The
/// text is appended to the output, which keeps its last `OUTPUT_CAP` characters.
pub open spec fn after_output(v: SessionView, text: Seq<char>) -> SessionView {
    let leave = contains(text, alt_screen_exit());
    let enter = contains(text, alt_screen_enter()) || contains(text, cursor_hide());
    SessionView {
        raw: if leave {
            false
        } else if enter {
            true
        } else {
            v.raw
        },
        output: keep_last(v.output + text, OUTPUT_CAP as nat),
        ..v
    }
}

/// Names what std's lossy UTF-8 decoding makes of a byte string.
pub uninterp spec fn utf8_lossy(b: Seq<u8>) -> Seq<char>;

/// Relies on `String::from_utf8_lossy`: the result depends on the bytes alone
/// (invalid sequences become U+FFFD).
#[verifier::external_body]
fn decode_utf8_lossy(b: &[u8]) -> (r: String)
    ensures
        r@ == utf8_lossy(b@),
        b@.len() == 0 ==> r@.len() == 0,
{
    String::from_utf8_lossy(b).into_owned()
}

fn push_utf8(out: &mut Vec<u8>, c: char)
    ensures
        final(out)@ == old(out)@ + utf8_char(c),
{
    let v = c as u32;
    if v < 0x80 {
        out.push(v as u8);
    } else if v < 0x800 {
        out.push((0xC0 + v / 64) as u8);
        out.push((0x80 + v % 64) as u8);
    } else if v < 0x10000 {
        out.push((0xE0 + v / 4096) as u8);
        out.push((0x80 + (v / 64) % 64) as u8);
        out.push((0x80 + v % 64) as u8);
    } else {
        out.push((0xF0 + v / 262144) as u8);
        out.push((0x80 + (v / 4096) % 64) as u8);
        out.push((0x80 + (v / 64) % 64) as u8);
        out.push((0x80 + v % 64) as u8);
    }
    assert(final(out)@ =~= old(out)@ + utf8_char(c));
}

fn encode_utf8(s: &Vec<char>) -> (r: Vec<u8>)
    ensures
        r@ == utf8(s@),
{
    let mut out: Vec<u8> = Vec::new();
    let mut i: usize = 0;
    while i < s.len()
        invariant
            i <= s.len(),
            out@ == utf8(s@.subrange(0, i as int)),
        decreases s.len() - i,
    {
        proof {
            assert(s@.subrange(0, i as int + 1).drop_last() =~= s@.subrange(0, i as int));
        }
        push_utf8(&mut out, s[i]);
        i = i + 1;
    }
    assert(s@.subrange(0, s.len() as int) =~= s@);
    out
}

fn copy_chars(s: &Vec<char>) -> (r: Vec<char>)
    ensures
        r@ == s@,
{
    let mut out: Vec<char> = Vec::new();
    let mut i: usize = 0;
    while i < s.len()
        invariant
            i <= s.len(),
            out@ == s@.subrange(0, i as int),
        decreases s.len() - i,
    {
        out.push(s[i]);
        i = i + 1;
        assert(out@ =~= s@.subrange(0, i as int));
    }
    assert(out@ =~= s@);
    out
}

fn append_chars(out: &mut Vec<char>, s: &Vec<char>)
    ensures
        final(out)@ == old(out)@ + s@,
{
    let mut i: usize = 0;
    while i < s.len()
        invariant
            i <= s.len(),
            out@ == old(out)@ + s@.subrange(0, i as int),
        decreases s.len() - i,
    {
        out.push(s[i]);
        i = i + 1;
        assert(out@ =~= old(out)@ + s@.subrange(0, i as int));
    }
    assert(s@.subrange(0, s.len() as int) =~= s@);
}

fn blank(s: &Vec<char>) -> (r: bool)
    ensures
        r == is_blank(s@),
{
    let mut i: usize = 0;
    while i < s.len()
        invariant
            i <= s.len(),
            forall|k: int| 0 <= k < i ==> is_space(#[trigger] s@[k]),
        decreases s.len() - i,
    {
        let c = s[i];
        let space = ('\u{9}' <= c && c <= '\u{d}') || c == '\u{20}' || c == '\u{85}' || c == '\u{a0}'
            || c == '\u{1680}' || ('\u{2000}' <= c && c <= '\u{200a}') || c == '\u{2028}' || c == '\u{2029}'
            || c == '\u{202f}' || c == '\u{205f}' || c == '\u{3000}';
        if !space {
            assert(!is_space(s@[i as int]));
            return false;
        }
        i = i + 1;
    }
    true
}

/// Whether `needle` occurs in `hay`.
fn contains_chars(hay: &Vec<char>, needle: &[char]) -> (r: bool)
    requires
        needle@.len() > 0,
    ensures
        r == contains(hay@, needle@),
{
    let n = hay.len();
    let m = needle.len();
    if m > n {
        return false;
    }
    let mut k: usize = 0;
    while k <= n - m
        invariant
            k <= n - m + 1,
            0 < m <= n == hay.len(),
            m == needle@.len(),
            forall|j: int| 0 <= j < k ==> #[trigger] hay@.subrange(j, j + m) != needle@,
        decreases n - m + 1 - k,
    {
        let mut t: usize = 0;
        let mut same = true;
        while t < m
            invariant
                k + m <= n == hay.len(),
                m == needle@.len(),
                t <= m,
                same ==> forall|u: int| 0 <= u < t ==> hay@[k + u] == needle@[u],
                !same ==> hay@.subrange(k as int, k + m) != needle@,
            decreases m - t,
        {
            if hay[k + t] != needle[t] {
                assert(hay@.subrange(k as int, k + m)[t as int] == hay@[k + t]);
                same = false;
            }
            t = t + 1;
        }
        if same {
            assert(hay@.subrange(k as int, k + m) =~= needle@);
            return true;
        }
        k = k + 1;
    }
    false
}

/// The texts `chunks` joined in order.
pub open spec fn joined(chunks: Seq<Seq<char>>) -> Seq<char>
    decreases chunks.len(),
{
    if chunks.len() == 0 {
        Seq::empty()
    } else {
        joined(chunks.drop_last()) + chunks.last()
    }
}

/// The session after the child printed each of `chunks`, in order.
pub open spec fn after_outputs(v: SessionView, chunks: Seq<Seq<char>>) -> SessionView
    decreases chunks.len(),
{
    if chunks.len() == 0 {
        v
    } else {
        after_output(after_outputs(v, chunks.drop_last()), chunks.last())
    }
}

proof fn lemma_keep_last_twice(a: Seq<char>, b: Seq<char>, n: nat)
    ensures
        keep_last(keep_last(a, n) + b, n) == keep_last(a + b, n),
{
    if a.len() > n {
        assert(keep_last(keep_last(a, n) + b, n) =~= keep_last(a + b, n));
    }
}

/// After any series of outputs the session holds the last `OUTPUT_CAP`
/// characters of all it was given, or all of it when that is shorter.
pub proof fn lemma_outputs_kept(v: SessionView, chunks: Seq<Seq<char>>)
    requires
        v.output.len() <= OUTPUT_CAP,
    ensures
        after_outputs(v, chunks).output == keep_last(v.output + joined(chunks), OUTPUT_CAP as nat),
    decreases chunks.len(),
{
    if chunks.len() == 0 {
        assert(v.output + joined(chunks) =~= v.output);
    } else {
        lemma_outputs_kept(v, chunks.drop_last());
        lemma_keep_last_twice(v.output + joined(chunks.drop_last()), chunks.last(), OUTPUT_CAP as nat);
        assert(v.output + joined(chunks.drop_last()) + chunks.last() =~= v.output + joined(chunks));
    }
}

/// Output beyond the cap, over any series of outputs: the buffer is left
/// holding exactly `OUTPUT_CAP` characters, the most recent ones.
pub proof fn lemma_output_cap(v: SessionView, chunks: Seq<Seq<char>>)
    requires
        session_wf(v),
        v.output.len() + joined(chunks).len() > OUTPUT_CAP,
    ensures
        after_outputs(v, chunks).output.len() == OUTPUT_CAP,
        after_outputs(v, chunks).output == (v.output + joined(chunks)).subrange(
            v.output.len() + joined(chunks).len() - OUTPUT_CAP,
            (v.output.len() + joined(chunks).len()) as int,
        ),
{
    lemma_outputs_kept(v, chunks);
}

// ------------------------------------------------------------------ session

/// A pane's session.
pub struct Terminal {
    id: usize,
    is_active: bool,
    header: Header,
    width: u32,
    height: u32,
    output_buffer: Vec<char>,
    command_buffer: Vec<char>,
    history: Vec<Vec<char>>,
    history_cursor: Option<usize>,
    cursor_visible: bool,
    last_cursor_toggle: u64,
    raw_mode: bool,
    is_maximized: bool,
}

impl View for Terminal {
    type V = SessionView;

    closed spec fn view(&self) -> SessionView {
        SessionView {
            id: self.id as nat,
            active: self.is_active,
            raw: self.raw_mode,
            output: self.output_buffer@,
            command: self.command_buffer@,
            history: self.history@.map_values(|h: Vec<char>| h@),
            cursor: match self.history_cursor {
                None => None,
                Some(c) => Some(c as nat),
            },
            cursor_visible: self.cursor_visible,
            last_toggle: self.last_cursor_toggle as nat,
            width: self.width as nat,
            height: self.height as nat,
            maximized: self.is_maximized,
        }
    }
}

/// A session's invariant: the output within its cap, the history cursor on an entry.
pub open spec fn session_wf(v: SessionView) -> bool {
    &&& v.output.len() <= OUTPUT_CAP
    &&& v.id <= usize::MAX
    &&& v.width <= u32::MAX
    &&& v.height <= u32::MAX
    &&& v.last_toggle <= u64::MAX
    &&& (v.cursor matches Some(c) ==> c < v.history.len())
}

impl Terminal {
    pub closed spec fn header_spec(&self) -> Header {
        self.header
    }

    pub open spec fn wf(&self) -> bool {
        session_wf(self@)
    }

    /// A fresh session: inactive, in line-edit mode, with empty output,
    /// line and history, and the cursor shown since `now_ms`.
    pub fn new(id: usize, width: u32, height: u32, color_set: ColorSet, is_maximized: bool, now_ms: u64) -> (r: Terminal)
        ensures
            r.wf(),
            r@ == (SessionView {
                id: id as nat,
                active: false,
                raw: false,
                output: Seq::empty(),
                command: Seq::empty(),
                history: Seq::empty(),
                cursor: None,
                cursor_visible: true,
                last_toggle: now_ms as nat,
                width: width as nat,
                height: height as nat,
                maximized: is_maximized,
            }),
            r.header_spec().color_set == color_set,
            r.header_spec().color_mode == crate::palette::ColorMode::Dark,
            r.header_spec().title@ == "Untitled Terminal"@,
            r.header_spec().is_maximized == is_maximized,
            !r.header_spec().is_editing_title,
    {
        let r = Terminal {
            id,
            is_active: false,
            header: Header::new(color_set, is_maximized),
            width,
            height,
            output_buffer: Vec::new(),
            command_buffer: Vec::new(),
            history: Vec::new(),
            history_cursor: None,
            cursor_visible: true,
            last_cursor_toggle: now_ms,
            raw_mode: false,
            is_maximized,
        };
        assert(r@.history =~= Seq::empty());
        r
    }

    pub fn set_dark_mode(&mut self, dark_mode: bool)
        ensures
            final(self)@ == old(self)@,
            final(self).header_spec().color_mode == (if dark_mode {
                crate::palette::ColorMode::Dark
            } else {
                crate::palette::ColorMode::Light
            }),
            final(self).header_spec().color_set == old(self).header_spec().color_set,
            final(self).header_spec().title@ == old(self).header_spec().title@,
            final(self).header_spec().is_maximized == old(self).header_spec().is_maximized,
            final(self).header_spec().is_editing_title == old(self).header_spec().is_editing_title,
    {
        self.header.set_dark_mode(dark_mode);
    }

    /// Marks the session active or not; an inactive one stops title editing.
    pub fn set_active(&mut self, active: bool)
        ensures
            final(self)@ == (SessionView { active, ..old(self)@ }),
            final(self).header_spec().same_look(&old(self).header_spec()),
            !active ==> !final(self).header_spec().is_editing_title,
            active ==> final(self).header_spec().is_editing_title == old(self).header_spec().is_editing_title,
    {
        self.is_active = active;
        if !active {
            self.header.stop_editing_title();
        }
    }

    pub fn set_id(&mut self, id: usize)
        ensures
            final(self)@ == (SessionView { id: id as nat, ..old(self)@ }),
            final(self).header_spec() == old(self).header_spec(),
    {
        self.id = id;
    }

    pub fn set_width(&mut self, width: u32)
        ensures
            final(self)@ == (SessionView { width: width as nat, ..old(self)@ }),
            final(self).header_spec() == old(self).header_spec(),
    {
        self.width = width;
    }

    pub fn set_height(&mut self, height: u32)
        ensures
            final(self)@ == (SessionView { height: height as nat, ..old(self)@ }),
            final(self).header_spec() == old(self).header_spec(),
    {
        self.height = height;
    }

    pub fn set_maximized(&mut self, is_maximized: bool)
        ensures
            final(self)@ == (SessionView { maximized: is_maximized, ..old(self)@ }),
            final(self).header_spec().is_maximized == is_maximized,
            final(self).header_spec().color_set == old(self).header_spec().color_set,
            final(self).header_spec().color_mode == old(self).header_spec().color_mode,
            final(self).header_spec().is_editing_title == old(self).header_spec().is_editing_title,
    {
        self.is_maximized = is_maximized;
        self.header.set_maximized(is_maximized);
    }

    pub fn header(&self) -> (r: &Header)
        ensures
            *r == self.header_spec(),
    {
        &self.header
    }

    pub fn set_header(&mut self, header: Header)
        ensures
            final(self)@ == old(self)@,
            final(self).header_spec() == header,
    {
        self.header = header;
    }

    pub fn get_title(&self) -> (r: String)
        ensures
            r@ == self.header_spec().title@,
    {
        String::from_str(self.header.get_title())
    }

    pub fn get_primary_color(&self) -> (r: egui::Color32)
        ensures
            r == self.header_spec().color_set.primary,
    {
        self.header.get_primary_color_imm()
    }

    pub fn get_text_color(&self) -> (r: egui::Color32)
        ensures
            r == self.header_spec().color_set.spec_text_color(self.header_spec().color_mode),
    {
        self.header.get_terminal_text_color_imm()
    }

    pub fn id(&self) -> (r: usize)
        ensures
            r == self@.id,
    {
        self.id
    }

    pub fn is_active(&self) -> (r: bool)
        ensures
            r == self@.active,
    {
        self.is_active
    }

    pub fn is_raw_mode(&self) -> (r: bool)
        ensures
            r == self@.raw,
    {
        self.raw_mode
    }

    pub fn is_maximized(&self) -> (r: bool)
        ensures
            r == self@.maximized,
    {
        self.is_maximized
    }

    pub fn width(&self) -> (r: u32)
        ensures
            r == self@.width,
    {
        self.width
    }

    pub fn height(&self) -> (r: u32)
        ensures
            r == self@.height,
    {
        self.height
    }

    pub fn cursor_visible(&self) -> (r: bool)
        ensures
            r == self@.cursor_visible,
    {
        self.cursor_visible
    }

    pub fn history_cursor(&self) -> (r: Option<usize>)
        ensures
            self@.cursor == (match r {
                None => None,
                Some(c) => Some(c as nat),
            }),
    {
        self.history_cursor
    }

    pub fn history_len(&self) -> (r: usize)
        ensures
            r == self@.history.len(),
    {
        self.history.len()
    }

    /// The line being edited.
    pub fn command_text(&self) -> (r: String)
        ensures
            r@ == self@.command,
    {
        string_of(&self.command_buffer)
    }

    /// The output kept so far.
    pub fn output_text(&self) -> (r: String)
        ensures
            r@ == self@.output,
    {
        string_of(&self.output_buffer)
    }

    pub fn output_len(&self) -> (r: usize)
        ensures
            r == self@.output.len(),
    {
        self.output_buffer.len()
    }

    /// Takes in what the child printed (see `after_output`).
    pub fn append_output(&mut self, text: &str)
        requires
            old(self).wf(),
        ensures
            final(self).wf(),
            final(self)@ == after_output(old(self)@, text@),
            final(self).header_spec() == old(self).header_spec(),
    {
        let t = chars_of(text);
        let enter = vec![ESC, '[', '?', '1', '0', '4', '9', 'h'];
        let exit = vec![ESC, '[', '?', '1', '0', '4', '9', 'l'];
        let hide = vec![ESC, '[', '?', '2', '5', 'l'];
        proof {
            assert(enter@ =~= alt_screen_enter());
            assert(exit@ =~= alt_screen_exit());
            assert(hide@ =~= cursor_hide());
        }
        let leave = contains_chars(&t, exit.as_slice());
        let starts = contains_chars(&t, enter.as_slice()) || contains_chars(&t, hide.as_slice());
        if leave {
            self.raw_mode = false;
        } else if starts {
            self.raw_mode = true;
        }
        append_chars(&mut self.output_buffer, &t);
        let len = self.output_buffer.len();
        if len > OUTPUT_CAP {
            let tail = self.output_buffer.split_off(len - OUTPUT_CAP);
            self.output_buffer = tail;
        }
        assert(self@.history =~= old(self)@.history);
        assert(self@ == after_output(old(self)@, text@));
    }

    /// Takes in bytes that the child wrote, decoded as UTF-8 with invalid
    /// sequences replaced.
    pub fn read_output(&mut self, bytes: &[u8])
        requires
            old(self).wf(),
        ensures
            final(self).wf(),
            final(self)@ == after_output(old(self)@, utf8_lossy(bytes@)),
            final(self).header_spec() == old(self).header_spec(),
    {
        let text = decode_utf8_lossy(bytes);
        self.append_output(text.as_str());
    }

    /// Flips the cursor when more than `BLINK_MS` milliseconds have passed
    /// since the last flip.
    pub fn tick_cursor(&mut self, now_ms: u64)
        ensures
            (now_ms >= old(self)@.last_toggle && now_ms - old(self)@.last_toggle > BLINK_MS) ==> final(self)@ == (SessionView {
                cursor_visible: !old(self)@.cursor_visible,
                last_toggle: now_ms as nat,
                ..old(self)@
            }),
            !(now_ms >= old(self)@.last_toggle && now_ms - old(self)@.last_toggle > BLINK_MS) ==> final(self)@ == old(self)@,
            final(self).header_spec() == old(self).header_spec(),
    {
        if now_ms >= self.last_cursor_toggle && now_ms - self.last_cursor_toggle > BLINK_MS {
            self.cursor_visible = !self.cursor_visible;
            self.last_cursor_toggle = now_ms;
        }
    }

    /// The whole output decoded into styled runs, in the pane's palette,
    /// plain text in the pane's text colour.
    pub fn segments(&self) -> (r: Vec<TerminalOutput>)
        ensures
            runs_of(r@) == decode(
                self@.output,
                self.header_spec().color_set,
                self.header_spec().color_set.spec_text_color(self.header_spec().color_mode),
            ),
    {
        let default_color = self.header.get_terminal_text_color_imm();
        parse_ansi_chars(&self.output_buffer, &self.header.color_set, default_color)
    }

    /// The output as raw mode shows it (see `raw_view`).
    pub fn raw_text(&self) -> (r: String)
        ensures
            r@ == raw_view(self@.output),
    {
        raw_text(&self.output_buffer)
    }

    /// The decoded output broken into lines (see `split_lines`): the
    /// finished lines and the current one.
    pub fn lines(&self) -> (r: (Vec<Vec<TerminalOutput>>, Vec<TerminalOutput>))
        ensures
            (lines_view(r.0@), runs_of(r.1@)) == lines_of(
                decode(
                    self@.output,
                    self.header_spec().color_set,
                    self.header_spec().color_set.spec_text_color(self.header_spec().color_mode),
                ),
            ),
    {
        let segments = self.segments();
        split_lines(&segments)
    }

    fn load_history(&mut self, i: usize)
        requires
            old(self).wf(),
            i < old(self)@.history.len(),
        ensures
            final(self).wf(),
            final(self)@ == (SessionView { command: old(self)@.history[i as int], cursor: Some(i as nat), ..old(self)@ }),
            final(self).header_spec() == old(self).header_spec(),
    {
        self.command_buffer = copy_chars(&self.history[i]);
        self.history_cursor = Some(i);
    }

    fn line_key(&mut self, key: Key, ctrl: bool) -> (r: Vec<u8>)
        requires
            old(self).wf(),
        ensures
            final(self).wf(),
            (final(self)@, r@) == line_key(old(self)@, key, ctrl),
            final(self).header_spec() == old(self).header_spec(),
    {
        match key {
            Key::Enter => {
                let mut out = encode_utf8(&self.command_buffer);
                out.push(0x0a);
                let mut line: Vec<char> = Vec::new();
                std::mem::swap(&mut line, &mut self.command_buffer);
                if !blank(&line) {
                    self.history.push(line);
                }
                self.history_cursor = None;
                assert(self@.history =~= line_key(old(self)@, key, ctrl).0.history);
                out
            },
            Key::Backspace => {
                self.command_buffer.pop();
                self.history_cursor = None;
                assert(self@.command =~= line_key(old(self)@, key, ctrl).0.command);
                Vec::new()
            },
            Key::ArrowUp => {
                let n = self.history.len();
                if n > 0 {
                    let i = match self.history_cursor {
                        None => n - 1,
                        Some(c) => if c > 0 {
                            c - 1
                        } else {
                            0
                        },
                    };
                    self.load_history(i);
                }
                Vec::new()
            },
            Key::ArrowDown => {
                match self.history_cursor {
                    None => {},
                    Some(c) => {
                        let n = self.history.len();
                        assert(c < n);
                        if c < n - 1 {
                            self.load_history(c + 1);
                        } else {
                            self.command_buffer = Vec::new();
                            self.history_cursor = None;
                            assert(self@.command =~= Seq::empty());
                        }
                    },
                }
                Vec::new()
            },
            Key::Letter(c) => {
                if ctrl && c == 'c' {
                    self.command_buffer = Vec::new();
                    assert(self@.command =~= Seq::empty());
                    vec![0x03u8]
                } else if ctrl && (c == 'd' || c == 'l') {
                    let r = if c == 'd' {
                        vec![0x04u8]
                    } else {
                        vec![0x0cu8]
                    };
                    assert(r@ =~= ctrl_code(c));
                    r
                } else {
                    Vec::new()
                }
            },
            _ => key_bytes(key),
        }
    }

    /// Handles one keyboard event (see `after_event`) and returns the bytes
    /// to be written to the child.
    pub fn handle_event(&mut self, event: &InputEvent) -> (r: Vec<u8>)
        requires
            old(self).wf(),
        ensures
            final(self).wf(),
            (final(self)@, r@) == after_event(old(self)@, old(self).header_spec().is_editing_title, *event),
            final(self).header_spec() == old(self).header_spec(),
    {
        if !self.is_active || self.header.is_editing_title() {
            return Vec::new();
        }
        if self.raw_mode {
            match event {
                InputEvent::Text(t) => encode_utf8(&chars_of(t.as_str())),
                InputEvent::Key { key, ctrl } => raw_key(*key, *ctrl),
            }
        } else {
            match event {
                InputEvent::Text(t) => {
                    let chars = chars_of(t.as_str());
                    append_chars(&mut self.command_buffer, &chars);
                    self.history_cursor = None;
                    Vec::new()
                },
                InputEvent::Key { key, ctrl } => self.line_key(*key, *ctrl),
            }
        }
    }
}

fn key_bytes(key: Key) -> (r: Vec<u8>)
    ensures
        r@ == key_sequence(key),
{
    let r: Vec<u8> = match key {
        Key::Tab => vec![0x09u8],
        Key::Escape => vec![0x1bu8],
        Key::ArrowUp => vec![0x1bu8, 0x5bu8, 0x41u8],
        Key::ArrowDown => vec![0x1bu8, 0x5bu8, 0x42u8],
        Key::ArrowRight => vec![0x1bu8, 0x5bu8, 0x43u8],
        Key::ArrowLeft => vec![0x1bu8, 0x5bu8, 0x44u8],
        Key::Home => vec![0x1bu8, 0x5bu8, 0x48u8],
        Key::End => vec![0x1bu8, 0x5bu8, 0x46u8],
        Key::PageUp => vec![0x1bu8, 0x5bu8, 0x35u8, 0x7eu8],
        Key::PageDown => vec![0x1bu8, 0x5bu8, 0x36u8, 0x7eu8],
        Key::Delete => vec![0x1bu8, 0x5bu8, 0x33u8, 0x7eu8],
        _ => Vec::new(),
    };
    assert(r@ =~= key_sequence(key));
    r
}

fn raw_key(key: Key, ctrl: bool) -> (r: Vec<u8>)
    ensures
        r@ == raw_key_bytes(key, ctrl),
{
    match key {
        Key::Enter => {
            let r = vec![0x0du8];
            assert(r@ =~= raw_key_bytes(key, ctrl));
            r
        },
        Key::Backspace => {
            let r = vec![0x7fu8];
            assert(r@ =~= raw_key_bytes(key, ctrl));
            r
        },
        Key::Letter(c) => {
            if ctrl && 'a' <= c && c <= 'z' {
                let r = vec![(c as u32 - 0x60) as u8];
                assert(r@ =~= raw_key_bytes(key, ctrl));
                r
            } else {
                Vec::new()
            }
        },
        _ => key_bytes(key),
    }
}

} // verus!
