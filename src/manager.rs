//! The pane multiplexer: up to `MAX_TERMINALS` sessions in slots `0..n`,
//! arranged in a top and a bottom row, one of them active, shown as a grid
//! or one at a time.
use vstd::prelude::*;
use crate::header::Header;
use crate::palette::ColorSet;
use crate::terminal::{session_wf, BLINK_MS, InputEvent, SessionView, Terminal, TerminalResponse, after_event, after_output, utf8_lossy};

verus! {

/// Most panes the multiplexer holds.
pub const MAX_TERMINALS: usize = 6;

/// Pixels of border that each pane in a row gives up.
pub const BORDER: u32 = 2;

/// Height of the tab bar below a maximised pane.
pub const TAB_BAR_HEIGHT: u32 = 40;

/// Hue of the first pane's palette, in degrees.
pub const FIRST_HUE: u64 = 180;

/// How far the hue moves on for each new pane, in degrees.
pub const HUE_STEP: u64 = 55;

/// Size a new pane has before the first layout.
pub const INITIAL_SIZE: u32 = 100;

/// How many of `n` panes stand in the top row.
pub open spec fn top_count(n: nat) -> nat {
    if n <= 2 {
        n
    } else {
        n / 2
    }
}

/// Slots of the top row: the first `top_count(n)`.
pub open spec fn top_slots(n: nat) -> Seq<usize> {
    Seq::new(top_count(n), |i: int| i as usize)
}

/// Slots of the bottom row: the others.
pub open spec fn bottom_slots(n: nat) -> Seq<usize> {
    Seq::new((n - top_count(n)) as nat, |i: int| (top_count(n) + i) as usize)
}

/// Width of each of `count` panes sharing a row `w` wide, after their borders.
pub open spec fn pane_width(w: nat, count: nat) -> nat {
    if count == 0 {
        w
    } else if w > BORDER * count {
        ((w - BORDER * count) / (count as int)) as nat
    } else {
        0
    }
}

/// Width and height of the pane in `slot` when `n` panes share `w` by `h`
/// pixels: rows split the height evenly (a lone row has all of it), and a
/// row's panes split its width evenly.
pub open spec fn grid_size(slot: nat, n: nat, w: nat, h: nat) -> (nat, nat) {
    let tc = top_count(n);
    let bc = (n - tc) as nat;
    if slot < tc {
        (pane_width(w, tc), if bc > 0 {
            h / 2
        } else {
            h
        })
    } else {
        (pane_width(w, bc), h / 2)
    }
}

/// Whether the sessions `s` have the sizes of the grid on `w` by `h` pixels.
pub open spec fn laid_out(s: Seq<SessionView>, w: nat, h: nat) -> bool {
    forall|i: int| 0 <= i < s.len() ==> (#[trigger] s[i].width, s[i].height) == grid_size(i as nat, s.len(), w, h)
}

/// Session `b` is session `a` in another place: the same but for slot id,
/// size and activity.
pub open spec fn moved(a: SessionView, b: SessionView) -> bool {
    b == (SessionView { id: b.id, width: b.width, height: b.height, active: b.active, ..a })
}

/// The active slot after slot `index` of `n` is removed: the first slot if
/// the active one went (none if no pane is left), one lower if it stood
/// after the removed slot, else the same.
pub open spec fn active_after_remove(active: Option<usize>, index: nat, n: nat) -> Option<usize> {
    match active {
        None => None,
        Some(a) => if a == index {
            if n > 1 {
                Some(0usize)
            } else {
                None
            }
        } else if a > index {
            Some((a - 1) as usize)
        } else {
            Some(a)
        },
    }
}

/// Every slot of `0..n` stands in exactly one of the two rows, top first.
pub proof fn lemma_arrangement(n: nat)
    requires
        n <= MAX_TERMINALS,
    ensures
        top_slots(n).len() == (if n <= 2 {
            n
        } else {
            n / 2
        }),
        bottom_slots(n).len() == n - top_slots(n).len(),
        forall|s: usize| s < n ==> (top_slots(n).contains(s) <==> !bottom_slots(n).contains(s)),
        forall|s: usize| top_slots(n).contains(s) || bottom_slots(n).contains(s) ==> s < n,
        forall|i: int, j: int| 0 <= i < top_slots(n).len() && 0 <= j < bottom_slots(n).len() ==> top_slots(n)[i] < bottom_slots(n)[j],
{
    let t = top_slots(n);
    let b = bottom_slots(n);
    let tc = top_count(n);
    assert forall|s: usize| s < n implies (t.contains(s) <==> !b.contains(s)) by {
        if s < tc {
            assert(t[s as int] == s);
            if b.contains(s) {
                let j = choose|j: int| 0 <= j < b.len() && b[j] == s;
                assert(b[j] == (tc + j) as usize);
            }
        } else {
            assert(b[s - tc] == s);
            if t.contains(s) {
                let j = choose|j: int| 0 <= j < t.len() && t[j] == s;
                assert(t[j] == j as usize);
            }
        }
    }
    assert forall|s: usize| t.contains(s) || b.contains(s) implies s < n by {
        if t.contains(s) {
            let j = choose|j: int| 0 <= j < t.len() && t[j] == s;
            assert(t[j] == j as usize);
        } else {
            let j = choose|j: int| 0 <= j < b.len() && b[j] == s;
            assert(b[j] == (tc + j) as usize);
        }
    }
}

/// Slot that slot `j` held before slot `index` was removed.
pub open spec fn slot_before_remove(j: int, index: int) -> int {
    if j < index {
        j
    } else {
        j + 1
    }
}

/// The multiplexer.
pub struct TerminalManager {
    terminals: Vec<Terminal>,
    num_terminals: usize,
    max_terminals: usize,
    top_row_terminals: Vec<usize>,
    bottom_row_terminals: Vec<usize>,
    show_all: bool,
    last_hue: u64,
    active_terminal_id: Option<usize>,
}

impl TerminalManager {
    /// The sessions in slot order.
    pub closed spec fn sessions(&self) -> Seq<SessionView> {
        self.terminals@.map_values(|t: Terminal| t@)
    }

    /// The title bars of the sessions, in slot order.
    pub closed spec fn headers(&self) -> Seq<Header> {
        self.terminals@.map_values(|t: Terminal| t.header_spec())
    }

    pub closed spec fn top_row(&self) -> Seq<usize> {
        self.top_row_terminals@
    }

    pub closed spec fn bottom_row(&self) -> Seq<usize> {
        self.bottom_row_terminals@
    }

    pub closed spec fn active(&self) -> Option<usize> {
        self.active_terminal_id
    }

    /// Whether all panes are shown as a grid (else the active one alone).
    pub closed spec fn grid(&self) -> bool {
        self.show_all
    }

    /// Hue, in degrees, for the palette of the next pane.
    pub closed spec fn hue(&self) -> u64 {
        self.last_hue
    }

    pub closed spec fn counts_ok(&self) -> bool {
        &&& self.num_terminals == self.terminals@.len()
        &&& self.max_terminals == MAX_TERMINALS
    }

    /// The multiplexer's invariant.
    pub open spec fn wf(&self) -> bool {
        let s = self.sessions();
        &&& self.counts_ok()
        &&& s.len() <= MAX_TERMINALS
        &&& forall|i: int| 0 <= i < s.len() ==> session_wf(#[trigger] s[i]) && s[i].id == i
        &&& self.top_row() == top_slots(s.len())
        &&& self.bottom_row() == bottom_slots(s.len())
        &&& (s.len() > 0 <==> self.active() is Some)
        &&& (self.active() matches Some(a) ==> a < s.len())
        &&& forall|i: int| 0 <= i < s.len() ==> (#[trigger] s[i].active <==> self.active() == Some(i as usize))
    }

    proof fn lemma_view(&self)
        ensures
            self.sessions().len() == self.terminals@.len(),
            self.headers().len() == self.terminals@.len(),
            forall|i: int| 0 <= i < self.terminals@.len() ==> #[trigger] self.sessions()[i] == self.terminals@[i]@,
            forall|i: int| 0 <= i < self.terminals@.len() ==> #[trigger] self.headers()[i] == self.terminals@[i].header_spec(),
    {
    }

    /// `self` is `old` after slot `id` was made the only active one (which
    /// also ends any title editing).
    pub open spec fn activated(&self, old: &Self, id: usize) -> bool {
        &&& self.active() == Some(id)
        &&& self.sessions().len() == old.sessions().len()
        &&& self.headers().len() == old.headers().len()
        &&& forall|i: int| 0 <= i < self.sessions().len() ==> #[trigger] self.sessions()[i] == (SessionView {
            active: i == id,
            ..old.sessions()[i]
        })
        &&& forall|i: int| 0 <= i < self.headers().len() ==> (#[trigger] self.headers()[i]).same_look(&old.headers()[i])
            && !self.headers()[i].is_editing_title
        &&& self.top_row() == old.top_row()
        &&& self.bottom_row() == old.bottom_row()
        &&& self.hue() == old.hue()
    }

    /// `self` is `old` after slot `index` was removed and the rest laid out on
    /// `w` by `h` pixels; `r` is the session that was removed.
    pub open spec fn removed(&self, old: &Self, index: usize, w: nat, h: nat, r: Option<Terminal>) -> bool {
        let n = old.sessions().len();
        &&& index < n
        &&& (r matches Some(t) && t@ == old.sessions()[index as int] && t.header_spec() == old.headers()[index as int])
        &&& self.sessions().len() == n - 1
        &&& self.headers().len() == n - 1
        &&& forall|j: int| 0 <= j < n - 1 ==> moved(old.sessions()[slot_before_remove(j, index as int)], #[trigger] self.sessions()[j])
        &&& forall|j: int| 0 <= j < n - 1 ==> (#[trigger] self.headers()[j]).same_look(&old.headers()[slot_before_remove(j, index as int)])
        &&& self.active() == active_after_remove(old.active(), index as nat, n)
        &&& match old.active() {
            Some(a) => a != index ==> (self.active() matches Some(b) && slot_before_remove(b as int, index as int) == a),
            None => true,
        }
        &&& laid_out(self.sessions(), w, h)
        &&& self.grid() == old.grid()
        &&& self.hue() == old.hue()
    }

    /// Nothing that the contracts speak of differs between `self` and `old`.
    pub open spec fn unchanged(&self, old: &Self) -> bool {
        &&& self.sessions() == old.sessions()
        &&& self.headers() == old.headers()
        &&& self.active() == old.active()
        &&& self.grid() == old.grid()
        &&& self.hue() == old.hue()
    }

    /// No panes, shown as a grid, with the first palette hue.
    pub fn new() -> (r: TerminalManager)
        ensures
            r.wf(),
            r.sessions().len() == 0,
            r.active() is None,
            r.grid(),
            r.hue() == FIRST_HUE,
    {
        let r = TerminalManager {
            terminals: Vec::new(),
            num_terminals: 0,
            max_terminals: MAX_TERMINALS,
            top_row_terminals: Vec::new(),
            bottom_row_terminals: Vec::new(),
            show_all: true,
            last_hue: FIRST_HUE,
            active_terminal_id: None,
        };
        assert(r.top_row() =~= top_slots(0));
        assert(r.bottom_row() =~= bottom_slots(0));
        r
    }

    pub fn num_terminals(&self) -> (r: usize)
        requires
            self.wf(),
        ensures
            r == self.sessions().len(),
    {
        self.terminals.len()
    }

    pub fn active_terminal_id(&self) -> (r: Option<usize>)
        ensures
            r == self.active(),
    {
        self.active_terminal_id
    }

    pub fn show_all(&self) -> (r: bool)
        ensures
            r == self.grid(),
    {
        self.show_all
    }

    /// Hue, in degrees, for the palette of the next pane to be added.
    pub fn next_hue(&self) -> (r: u64)
        ensures
            r == self.hue(),
    {
        self.last_hue
    }

    pub fn top_row_terminals(&self) -> (r: &Vec<usize>)
        ensures
            r@ == self.top_row(),
    {
        &self.top_row_terminals
    }

    pub fn bottom_row_terminals(&self) -> (r: &Vec<usize>)
        ensures
            r@ == self.bottom_row(),
    {
        &self.bottom_row_terminals
    }

    /// The session in slot `i`.
    pub fn terminal(&self, i: usize) -> (r: &Terminal)
        requires
            i < self.sessions().len(),
        ensures
            r@ == self.sessions()[i as int],
            r.header_spec() == self.headers()[i as int],
    {
        &self.terminals[i]
    }

    /// Lights or darkens every pane.
    pub fn set_dark_mode(&mut self, dark_mode: bool)
        requires
            old(self).wf(),
        ensures
            final(self).wf(),
            final(self).sessions() == old(self).sessions(),
            final(self).headers().len() == old(self).headers().len(),
            forall|i: int| 0 <= i < final(self).headers().len() ==> ({
                let a = #[trigger] final(self).headers()[i];
                let b = old(self).headers()[i];
                &&& a.color_mode == (if dark_mode {
                    crate::palette::ColorMode::Dark
                } else {
                    crate::palette::ColorMode::Light
                })
                &&& a.color_set == b.color_set
                &&& a.title@ == b.title@
                &&& a.is_maximized == b.is_maximized
                &&& a.is_editing_title == b.is_editing_title
            }),
            final(self).active() == old(self).active(),
            final(self).grid() == old(self).grid(),
            final(self).hue() == old(self).hue(),
    {
        let n = self.terminals.len();
        let mut i: usize = 0;
        proof {
            self.lemma_view();
        }
        while i < n
            invariant
                n == self.terminals@.len() == old(self).terminals@.len(),
                i <= n,
                self.num_terminals == old(self).num_terminals,
                self.max_terminals == old(self).max_terminals,
                self.top_row_terminals == old(self).top_row_terminals,
                self.bottom_row_terminals == old(self).bottom_row_terminals,
                self.active_terminal_id == old(self).active_terminal_id,
                self.show_all == old(self).show_all,
                self.last_hue == old(self).last_hue,
                forall|k: int| 0 <= k < n ==> #[trigger] self.terminals@[k]@ == old(self).terminals@[k]@,
                forall|k: int| i <= k < n ==> #[trigger] self.terminals@[k].header_spec() == old(self).terminals@[k].header_spec(),
                forall|k: int| 0 <= k < i ==> ({
                    let a = #[trigger] self.terminals@[k].header_spec();
                    let b = old(self).terminals@[k].header_spec();
                    &&& a.color_mode == (if dark_mode {
                        crate::palette::ColorMode::Dark
                    } else {
                        crate::palette::ColorMode::Light
                    })
                    &&& a.color_set == b.color_set
                    &&& a.title@ == b.title@
                    &&& a.is_maximized == b.is_maximized
                    &&& a.is_editing_title == b.is_editing_title
                }),
            decreases n - i,
        {
            self.terminals[i].set_dark_mode(dark_mode);
            i = i + 1;
        }
        proof {
            self.lemma_view();
            assert(self.sessions() =~= old(self).sessions());
        }
    }

    /// Makes slot `id` the active one and every other inactive; nothing
    /// changes when there is no such slot.
    pub fn set_active_terminal(&mut self, id: usize)
        requires
            old(self).wf(),
        ensures
            final(self).wf(),
            id < old(self).sessions().len() ==> final(self).activated(old(self), id),
            id >= old(self).sessions().len() ==> final(self).unchanged(old(self)),
            final(self).grid() == old(self).grid(),
    {
        if id < self.terminals.len() {
            self.activate(id);
            proof {
                self.lemma_view();
                old(self).lemma_view();
                assert forall|k: int| 0 <= k < self.sessions().len() implies session_wf(#[trigger] self.sessions()[k])
                    && self.sessions()[k].id == k by {
                    assert(old(self).sessions()[k] == old(self).terminals@[k]@);
                }
            }
        }
    }

    fn activate(&mut self, id: usize)
        requires
            old(self).counts_ok(),
            id < old(self).terminals@.len(),
        ensures
            final(self).counts_ok(),
            final(self).activated(old(self), id),
            final(self).grid() == old(self).grid(),
    {
        let n = self.terminals.len();
        let mut i: usize = 0;
        while i < n
            invariant
                n == self.terminals@.len() == old(self).terminals@.len(),
                id < n,
                i <= n,
                self.num_terminals == old(self).num_terminals,
                self.max_terminals == old(self).max_terminals,
                self.top_row_terminals == old(self).top_row_terminals,
                self.bottom_row_terminals == old(self).bottom_row_terminals,
                self.active_terminal_id == old(self).active_terminal_id,
                self.show_all == old(self).show_all,
                self.last_hue == old(self).last_hue,
                forall|k: int| 0 <= k < i ==> #[trigger] self.terminals@[k]@ == (SessionView { active: false, ..old(self).terminals@[k]@ }),
                forall|k: int| i <= k < n ==> #[trigger] self.terminals@[k]@ == old(self).terminals@[k]@,
                forall|k: int| 0 <= k < n ==> (#[trigger] self.terminals@[k].header_spec()).same_look(&old(self).terminals@[k].header_spec()),
                forall|k: int| 0 <= k < i ==> !(#[trigger] self.terminals@[k].header_spec()).is_editing_title,
                forall|k: int| i <= k < n ==> #[trigger] self.terminals@[k].header_spec() == old(self).terminals@[k].header_spec(),
            decreases n - i,
        {
            self.terminals[i].set_active(false);
            i = i + 1;
        }
        self.terminals[id].set_active(true);
        self.active_terminal_id = Some(id);
        proof {
            self.lemma_view();
            old(self).lemma_view();
        }
    }

    /// Lays the rows out anew for the current number of panes.
    pub fn rearrange_terminals(&mut self)
        requires
            old(self).counts_ok(),
            old(self).sessions().len() <= MAX_TERMINALS,
        ensures
            final(self).top_row() == top_slots(final(self).sessions().len()),
            final(self).bottom_row() == bottom_slots(final(self).sessions().len()),
            final(self).sessions() == old(self).sessions(),
            final(self).headers() == old(self).headers(),
            final(self).counts_ok(),
            final(self).active() == old(self).active(),
            final(self).grid() == old(self).grid(),
            final(self).hue() == old(self).hue(),
    {
        let n = self.num_terminals;
        proof {
            self.lemma_view();
        }
        let top = if n <= 2 {
            n
        } else {
            n / 2
        };
        let mut t: Vec<usize> = Vec::new();
        let mut b: Vec<usize> = Vec::new();
        let mut i: usize = 0;
        while i < n
            invariant
                n == self.terminals@.len() <= MAX_TERMINALS,
                top == top_count(n as nat),
                i <= n,
                i <= top ==> t@ =~= Seq::new(i as nat, |k: int| k as usize) && b@.len() == 0,
                i > top ==> t@ =~= top_slots(n as nat) && b@ =~= Seq::new((i - top) as nat, |k: int| (top + k) as usize),
            decreases n - i,
        {
            if i < top {
                t.push(i);
            } else {
                b.push(i);
            }
            i = i + 1;
        }
        proof {
            self.lemma_view();
            assert(t@ =~= top_slots(n as nat));
            assert(b@ =~= bottom_slots(n as nat));
        }
        self.top_row_terminals = t;
        self.bottom_row_terminals = b;
    }

    /// Sizes every pane for the grid on `available_width` by `available_height` pixels.
    pub fn resize_terminals(&mut self, available_width: u32, available_height: u32)
        requires
            old(self).wf(),
        ensures
            final(self).wf(),
            laid_out(final(self).sessions(), available_width as nat, available_height as nat),
            final(self).sessions().len() == old(self).sessions().len(),
            forall|i: int| 0 <= i < final(self).sessions().len() ==> #[trigger] final(self).sessions()[i] == (SessionView {
                width: final(self).sessions()[i].width,
                height: final(self).sessions()[i].height,
                ..old(self).sessions()[i]
            }),
            final(self).headers() == old(self).headers(),
            final(self).active() == old(self).active(),
            final(self).grid() == old(self).grid(),
            final(self).hue() == old(self).hue(),
    {
        let n = self.terminals.len();
        let top = if n <= 2 {
            n
        } else {
            n / 2
        };
        let bottom = n - top;
        let w = available_width;
        let h = available_height;
        let top_width: u32 = if top > 0 && w > BORDER * (top as u32) {
            (w - BORDER * (top as u32)) / (top as u32)
        } else {
            0
        };
        let top_height: u32 = if bottom > 0 {
            h / 2
        } else {
            h
        };
        let bottom_width: u32 = if bottom == 0 {
            w
        } else if w > BORDER * (bottom as u32) {
            (w - BORDER * (bottom as u32)) / (bottom as u32)
        } else {
            0
        };
        let bottom_height: u32 = h / 2;
        proof {
            self.lemma_view();
        }
        let mut i: usize = 0;
        while i < n
            invariant
                n == self.terminals@.len() == old(self).terminals@.len(),
                n <= MAX_TERMINALS,
                top == top_count(n as nat),
                bottom == n - top,
                i <= n,
                top > 0 ==> top_width == pane_width(w as nat, top as nat),
                top_height == (if bottom > 0 { h / 2 } else { h }),
                bottom_width == pane_width(w as nat, bottom as nat),
                bottom_height == h / 2,
                self.num_terminals == old(self).num_terminals,
                self.max_terminals == old(self).max_terminals,
                self.top_row_terminals == old(self).top_row_terminals,
                self.bottom_row_terminals == old(self).bottom_row_terminals,
                self.active_terminal_id == old(self).active_terminal_id,
                self.show_all == old(self).show_all,
                self.last_hue == old(self).last_hue,
                forall|k: int| 0 <= k < i ==> (#[trigger] self.terminals@[k]@.width, self.terminals@[k]@.height) == grid_size(k as nat, n as nat, w as nat, h as nat),
                forall|k: int| 0 <= k < n ==> #[trigger] self.terminals@[k]@ == (SessionView {
                    width: self.terminals@[k]@.width,
                    height: self.terminals@[k]@.height,
                    ..old(self).terminals@[k]@
                }),
                forall|k: int| 0 <= k < n ==> #[trigger] self.terminals@[k].header_spec() == old(self).terminals@[k].header_spec(),
            decreases n - i,
        {
            if i < top {
                self.terminals[i].set_width(top_width);
                self.terminals[i].set_height(top_height);
            } else {
                self.terminals[i].set_width(bottom_width);
                self.terminals[i].set_height(bottom_height);
            }
            i = i + 1;
        }
        proof {
            self.lemma_view();
            old(self).lemma_view();
            assert(self.headers() =~= old(self).headers());
            assert forall|k: int| 0 <= k < n implies session_wf(#[trigger] self.sessions()[k]) && self.sessions()[k].id == k
                && self.sessions()[k].active == old(self).sessions()[k].active by {
                assert(old(self).sessions()[k] == old(self).terminals@[k]@);
                assert(self.sessions()[k] == self.terminals@[k]@);
            }
        }
    }

    /// Lays out the grid again (the size of the space may have changed).
    pub fn update(&mut self, available_width: u32, available_height: u32)
        requires
            old(self).wf(),
        ensures
            final(self).wf(),
            laid_out(final(self).sessions(), available_width as nat, available_height as nat),
            final(self).sessions().len() == old(self).sessions().len(),
            forall|i: int| 0 <= i < final(self).sessions().len() ==> #[trigger] final(self).sessions()[i] == (SessionView {
                width: final(self).sessions()[i].width,
                height: final(self).sessions()[i].height,
                ..old(self).sessions()[i]
            }),
            final(self).headers() == old(self).headers(),
            final(self).active() == old(self).active(),
            final(self).grid() == old(self).grid(),
            final(self).hue() == old(self).hue(),
    {
        self.resize_terminals(available_width, available_height);
    }

    /// Opens a pane in the next free slot, with the palette `color_set` (made
    /// for the hue `next_hue`), and lays the grid out on `available_width` by
    /// `available_height` pixels. The first pane becomes the active one.
    /// With `MAX_TERMINALS` panes open nothing changes and the result is `None`.
    pub fn add_terminal(&mut self, available_width: u32, available_height: u32, color_set: ColorSet, now_ms: u64) -> (r: Option<usize>)
        requires
            old(self).wf(),
        ensures
            final(self).wf(),
            old(self).sessions().len() >= MAX_TERMINALS ==> r is None && final(self).unchanged(old(self)),
            old(self).sessions().len() < MAX_TERMINALS ==> ({
                let n = old(self).sessions().len();
                let s = final(self).sessions();
                &&& r == Some(n as usize)
                &&& s.len() == n + 1
                &&& forall|i: int| 0 <= i < n ==> #[trigger] s[i] == (SessionView {
                    width: s[i].width,
                    height: s[i].height,
                    ..old(self).sessions()[i]
                })
                &&& s[n as int] == (SessionView {
                    id: n,
                    active: n == 0,
                    raw: false,
                    output: Seq::empty(),
                    command: Seq::empty(),
                    history: Seq::empty(),
                    cursor: None,
                    cursor_visible: true,
                    last_toggle: now_ms as nat,
                    width: s[n as int].width,
                    height: s[n as int].height,
                    maximized: !old(self).grid(),
                })
                &&& final(self).headers().len() == n + 1
                &&& forall|i: int| 0 <= i < n ==> #[trigger] final(self).headers()[i] == old(self).headers()[i]
                &&& final(self).headers()[n as int].color_set == color_set
                &&& final(self).headers()[n as int].color_mode == crate::palette::ColorMode::Dark
                &&& final(self).headers()[n as int].title@ == "Untitled Terminal"@
                &&& final(self).headers()[n as int].is_maximized == !old(self).grid()
                &&& !final(self).headers()[n as int].is_editing_title
                &&& laid_out(s, available_width as nat, available_height as nat)
                &&& final(self).active() == (if n == 0 {
                    Some(0usize)
                } else {
                    old(self).active()
                })
                &&& final(self).grid() == old(self).grid()
                &&& final(self).hue() == (if old(self).hue() <= u64::MAX - HUE_STEP {
                    (old(self).hue() + HUE_STEP) as u64
                } else {
                    old(self).hue()
                })
            }),
    {
        proof {
            self.lemma_view();
        }
        if self.num_terminals + 1 > MAX_TERMINALS {
            return None;
        }
        let id = self.num_terminals;
        let mut terminal = Terminal::new(id, INITIAL_SIZE, INITIAL_SIZE, color_set, !self.show_all, now_ms);
        if id == 0 {
            terminal.set_active(true);
            self.active_terminal_id = Some(id);
        }
        self.terminals.push(terminal);
        self.num_terminals = self.num_terminals + 1;
        if self.last_hue <= u64::MAX - HUE_STEP {
            self.last_hue = self.last_hue + HUE_STEP;
        }
        self.rearrange_terminals();
        let ghost mid = *self;
        proof {
            self.lemma_view();
            old(self).lemma_view();
            assert forall|k: int| 0 <= k < self.sessions().len() implies session_wf(#[trigger] self.sessions()[k])
                && self.sessions()[k].id == k && (self.sessions()[k].active <==> self.active() == Some(k as usize)) by {
                if k < id {
                    assert(old(self).sessions()[k] == old(self).terminals@[k]@);
                }
            }
        }
        self.resize_terminals(available_width, available_height);
        proof {
            self.lemma_view();
            mid.lemma_view();
            assert forall|i: int| 0 <= i < id implies #[trigger] self.headers()[i] == old(self).headers()[i] by {
                assert(mid.headers()[i] == old(self).headers()[i]);
            }
        }
        Some(id)
    }

    /// Closes the pane in slot `index` and hands back its session, whose
    /// child process the caller is to end. The panes after it move down one
    /// slot, the active slot follows its pane (the first pane becomes active
    /// if the active one was closed), and the grid is laid out again.
    /// Without such a slot nothing changes and the result is `None`.
    pub fn remove_terminal(&mut self, index: usize, available_width: u32, available_height: u32) -> (r: Option<Terminal>)
        requires
            old(self).wf(),
        ensures
            final(self).wf(),
            index >= old(self).sessions().len() ==> r is None && final(self).unchanged(old(self)),
            index < old(self).sessions().len() ==> final(self).removed(old(self), index, available_width as nat, available_height as nat, r),
    {
        proof {
            self.lemma_view();
        }
        if index >= self.terminals.len() {
            return None;
        }
        let n = self.terminals.len();
        self.num_terminals = self.num_terminals - 1;
        let removed = self.terminals.remove(index);
        let m = self.terminals.len();
        let mut j: usize = 0;
        while j < m
            invariant
                m == self.terminals@.len() == n - 1,
                index < n,
                j <= m,
                self.terminals@.len() == old(self).terminals@.len() - 1,
                self.num_terminals == m,
                self.max_terminals == old(self).max_terminals,
                self.top_row_terminals == old(self).top_row_terminals,
                self.bottom_row_terminals == old(self).bottom_row_terminals,
                self.active_terminal_id == old(self).active_terminal_id,
                self.show_all == old(self).show_all,
                self.last_hue == old(self).last_hue,
                forall|k: int| 0 <= k < j ==> #[trigger] self.terminals@[k]@ == (SessionView {
                    id: k as nat,
                    ..old(self).terminals@[slot_before_remove(k, index as int)]@
                }),
                forall|k: int| j <= k < m ==> #[trigger] self.terminals@[k]@ == old(self).terminals@[slot_before_remove(k, index as int)]@,
                forall|k: int| 0 <= k < m ==> #[trigger] self.terminals@[k].header_spec() == old(self).terminals@[slot_before_remove(k, index as int)].header_spec(),
            decreases m - j,
        {
            self.terminals[j].set_id(j);
            j = j + 1;
        }
        self.rearrange_terminals();
        let ghost renumbered = *self;
        match self.active_terminal_id {
            Some(a) => {
                if a == index {
                    self.active_terminal_id = None;
                    if m > 0 {
                        self.activate(0);
                    }
                } else if a > index {
                    self.active_terminal_id = Some(a - 1);
                }
            },
            None => {},
        }
        proof {
            self.lemma_view();
            old(self).lemma_view();
            renumbered.lemma_view();
            assert forall|k: int| 0 <= k < m implies session_wf(#[trigger] self.sessions()[k]) && self.sessions()[k].id == k
                && (self.sessions()[k].active <==> self.active() == Some(k as usize))
                && moved(old(self).sessions()[slot_before_remove(k, index as int)], self.sessions()[k])
                && self.headers()[k].same_look(&old(self).headers()[slot_before_remove(k, index as int)]) by {
                assert(renumbered.sessions()[k] == renumbered.terminals@[k]@);
                assert(old(self).sessions()[slot_before_remove(k, index as int)] == old(self).terminals@[slot_before_remove(k, index as int)]@);
            }
        }
        let ghost settled = *self;
        self.resize_terminals(available_width, available_height);
        proof {
            self.lemma_view();
            settled.lemma_view();
            assert forall|k: int| 0 <= k < m implies moved(old(self).sessions()[slot_before_remove(k, index as int)], #[trigger] self.sessions()[k])
                && self.headers()[k].same_look(&old(self).headers()[slot_before_remove(k, index as int)]) by {
                assert(settled.sessions()[k] == settled.terminals@[k]@);
            }
        }
        Some(removed)
    }

    /// Acts on what the pane in slot `slot` asked for: a click makes it the
    /// active pane; a close request removes it (its session is returned); a
    /// maximise request makes it active and shows it alone; a restore request
    /// goes back to the grid.
    pub fn dispatch(&mut self, slot: usize, response: TerminalResponse, available_width: u32, available_height: u32) -> (r: Option<Terminal>)
        requires
            old(self).wf(),
        ensures
            final(self).wf(),
            response != TerminalResponse::CloseMe ==> r is None,
            response == TerminalResponse::Nothing ==> final(self).unchanged(old(self)),
            response == TerminalResponse::WasClicked ==> final(self).grid() == old(self).grid() && if slot < old(self).sessions().len() {
                final(self).activated(old(self), slot)
            } else {
                final(self).unchanged(old(self))
            },
            response == TerminalResponse::CloseMe ==> if slot < old(self).sessions().len() {
                final(self).removed(old(self), slot, available_width as nat, available_height as nat, r)
            } else {
                r is None && final(self).unchanged(old(self))
            },
            response == TerminalResponse::MaximizeMe ==> !final(self).grid() && if slot < old(self).sessions().len() {
                final(self).activated(old(self), slot)
            } else {
                final(self).sessions() == old(self).sessions() && final(self).headers() == old(self).headers()
                    && final(self).active() == old(self).active()
            },
            response == TerminalResponse::MinimizeMe ==> final(self).grid() && final(self).sessions() == old(self).sessions()
                && final(self).headers() == old(self).headers() && final(self).active() == old(self).active(),
            final(self).hue() == old(self).hue(),
    {
        match response {
            TerminalResponse::Nothing => None,
            TerminalResponse::WasClicked => {
                self.set_active_terminal(slot);
                None
            },
            TerminalResponse::CloseMe => self.remove_terminal(slot, available_width, available_height),
            TerminalResponse::MaximizeMe => {
                self.set_active_terminal(slot);
                self.show_all = false;
                None
            },
            TerminalResponse::MinimizeMe => {
                self.show_all = true;
                None
            },
        }
    }

    /// Shows one pane at a time (`false`) or all of them as a grid (`true`).
    pub fn set_show_all(&mut self, show_all: bool)
        requires
            old(self).wf(),
        ensures
            final(self).wf(),
            final(self).grid() == show_all,
            final(self).sessions() == old(self).sessions(),
            final(self).headers() == old(self).headers(),
            final(self).active() == old(self).active(),
            final(self).hue() == old(self).hue(),
    {
        self.show_all = show_all;
    }

    /// Sizes the active pane to fill `available_width` by `available_height`
    /// pixels but for the tab bar below it, as it is shown alone.
    pub fn fit_single(&mut self, available_width: u32, available_height: u32)
        requires
            old(self).wf(),
        ensures
            final(self).wf(),
            final(self).headers() == old(self).headers(),
            final(self).active() == old(self).active(),
            final(self).grid() == old(self).grid(),
            final(self).hue() == old(self).hue(),
            final(self).sessions().len() == old(self).sessions().len(),
            forall|i: int| 0 <= i < final(self).sessions().len() && old(self).active() != Some(i as usize)
                ==> #[trigger] final(self).sessions()[i] == old(self).sessions()[i],
            old(self).active() matches Some(a) ==> final(self).sessions()[a as int] == (SessionView {
                width: available_width as nat,
                height: (if available_height > TAB_BAR_HEIGHT {
                    available_height - TAB_BAR_HEIGHT
                } else {
                    0
                }) as nat,
                ..old(self).sessions()[a as int]
            }),
    {
        if let Some(a) = self.active_terminal_id {
            let height = if available_height > TAB_BAR_HEIGHT {
                available_height - TAB_BAR_HEIGHT
            } else {
                0
            };
            self.terminals[a].set_width(available_width);
            self.terminals[a].set_height(height);
            proof {
                self.lemma_view();
                old(self).lemma_view();
                assert(self.headers() =~= old(self).headers());
                assert forall|k: int| 0 <= k < self.sessions().len() implies session_wf(#[trigger] self.sessions()[k])
                    && self.sessions()[k].id == k && self.sessions()[k].active == old(self).sessions()[k].active by {
                    assert(old(self).sessions()[k] == old(self).terminals@[k]@);
                }
            }
        }
    }

    /// Hands bytes that the child of slot `slot` wrote to its session (see
    /// `Terminal::read_output`).
    pub fn read_output(&mut self, slot: usize, bytes: &[u8])
        requires
            old(self).wf(),
            slot < old(self).sessions().len(),
        ensures
            final(self).wf(),
            final(self).sessions() == old(self).sessions().update(slot as int, after_output(old(self).sessions()[slot as int], utf8_lossy(bytes@))),
            final(self).headers() == old(self).headers(),
            final(self).active() == old(self).active(),
            final(self).grid() == old(self).grid(),
            final(self).hue() == old(self).hue(),
    {
        proof {
            self.lemma_view();
            assert(self.terminals@[slot as int].wf());
        }
        self.terminals[slot].read_output(bytes);
        proof {
            self.lemma_view();
            old(self).lemma_view();
            assert(self.sessions() =~= old(self).sessions().update(slot as int, after_output(old(self).sessions()[slot as int], utf8_lossy(bytes@))));
            assert(self.headers() =~= old(self).headers());
        }
    }

    /// Lets the cursor of slot `slot` blink (see `Terminal::tick_cursor`).
    pub fn tick_cursor(&mut self, slot: usize, now_ms: u64)
        requires
            old(self).wf(),
            slot < old(self).sessions().len(),
        ensures
            final(self).wf(),
            final(self).sessions().len() == old(self).sessions().len(),
            forall|i: int| 0 <= i < final(self).sessions().len() && i != slot ==> #[trigger] final(self).sessions()[i] == old(self).sessions()[i],
            ({
                let o = old(self).sessions()[slot as int];
                let f = final(self).sessions()[slot as int];
                if now_ms >= o.last_toggle && now_ms - o.last_toggle > BLINK_MS {
                    f == (SessionView { cursor_visible: !o.cursor_visible, last_toggle: now_ms as nat, ..o })
                } else {
                    f == o
                }
            }),
            final(self).headers() == old(self).headers(),
            final(self).active() == old(self).active(),
            final(self).grid() == old(self).grid(),
            final(self).hue() == old(self).hue(),
    {
        self.terminals[slot].tick_cursor(now_ms);
        proof {
            self.lemma_view();
            old(self).lemma_view();
            assert(self.headers() =~= old(self).headers());
            assert forall|k: int| 0 <= k < self.sessions().len() implies session_wf(#[trigger] self.sessions()[k])
                && self.sessions()[k].id == k && self.sessions()[k].active == old(self).sessions()[k].active by {
                assert(old(self).sessions()[k] == old(self).terminals@[k]@);
            }
        }
    }

    /// Hands a keyboard event to the session of slot `slot` (see
    /// `Terminal::handle_event`) and returns the bytes for its child.
    pub fn handle_event(&mut self, slot: usize, event: &InputEvent) -> (r: Vec<u8>)
        requires
            old(self).wf(),
            slot < old(self).sessions().len(),
        ensures
            final(self).wf(),
            final(self).sessions().len() == old(self).sessions().len(),
            forall|i: int| 0 <= i < final(self).sessions().len() && i != slot ==> #[trigger] final(self).sessions()[i] == old(self).sessions()[i],
            (final(self).sessions()[slot as int], r@) == after_event(
                old(self).sessions()[slot as int],
                old(self).headers()[slot as int].is_editing_title,
                *event,
            ),
            final(self).headers() == old(self).headers(),
            final(self).active() == old(self).active(),
            final(self).grid() == old(self).grid(),
            final(self).hue() == old(self).hue(),
    {
        proof {
            self.lemma_view();
            assert(session_wf(self.sessions()[slot as int]));
            assert(self.terminals@[slot as int].wf());
        }
        let r = self.terminals[slot].handle_event(event);
        proof {
            self.lemma_view();
            old(self).lemma_view();
            assert(self.headers() =~= old(self).headers());
            assert forall|k: int| 0 <= k < self.sessions().len() implies session_wf(#[trigger] self.sessions()[k])
                && self.sessions()[k].id == k && self.sessions()[k].active == old(self).sessions()[k].active by {
                assert(old(self).sessions()[k] == old(self).terminals@[k]@);
            }
        }
        r
    }

    /// Puts `header` in place of the title bar of slot `slot`.
    pub fn set_header(&mut self, slot: usize, header: Header)
        requires
            old(self).wf(),
            slot < old(self).sessions().len(),
        ensures
            final(self).wf(),
            final(self).sessions() == old(self).sessions(),
            final(self).headers() == old(self).headers().update(slot as int, header),
            final(self).active() == old(self).active(),
            final(self).grid() == old(self).grid(),
            final(self).hue() == old(self).hue(),
    {
        self.terminals[slot].set_header(header);
        proof {
            self.lemma_view();
            old(self).lemma_view();
            assert(self.sessions() =~= old(self).sessions());
            assert(self.headers() =~= old(self).headers().update(slot as int, header));
        }
    }
}

impl Default for TerminalManager {
    fn default() -> (r: TerminalManager)
        ensures
            r.wf(),
            r.sessions().len() == 0,
            r.active() is None,
            r.grid(),
            r.hue() == FIRST_HUE,
    {
        TerminalManager::new()
    }
}

} // verus!
