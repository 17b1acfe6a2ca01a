//! Decoder of a terminal's output stream: ANSI/VT escape sequences are
//! stripped, and SGR colour/bold codes become the style of the text runs.
use vstd::prelude::*;
use crate::palette::ColorSet;
use crate::text::{chars_of, string_of};

verus! {

pub const ESC: char = '\x1b';

pub const BEL: char = '\x07';

/// A run of text drawn in one colour, bold or not.
pub struct TerminalOutput {
    pub text: String,
    pub color: egui::Color32,
    pub bold: bool,
}

impl View for TerminalOutput {
    type V = (Seq<char>, egui::Color32, bool);

    open spec fn view(&self) -> (Seq<char>, egui::Color32, bool) {
        (self.text@, self.color, self.bold)
    }
}

/// The styled runs that a vector of segments stands for.
pub open spec fn runs_of(v: Seq<TerminalOutput>) -> Seq<(Seq<char>, egui::Color32, bool)> {
    v.map_values(|t: TerminalOutput| t@)
}

/// Style of the text that follows: its colour and whether it is bold.
pub type Style = (egui::Color32, bool);

pub open spec fn is_ascii_alpha(c: char) -> bool {
    ('a' <= c && c <= 'z') || ('A' <= c && c <= 'Z')
}

/// Characters of an SGR parameter list: decimal digits and `;`.
pub open spec fn is_sgr_char(c: char) -> bool {
    ('0' <= c && c <= '9') || c == ';'
}

pub open spec fn is_sgr_code(code: Seq<char>) -> bool {
    forall|k: int| 0 <= k < code.len() ==> #[trigger] is_sgr_char(code[k])
}

/// The `;`-separated parts of an SGR parameter list (at least one, maybe empty).
pub open spec fn sgr_parts(code: Seq<char>) -> Seq<Seq<char>>
    decreases code.len(),
{
    if code.len() == 0 {
        seq![Seq::empty()]
    } else {
        let init = sgr_parts(code.drop_last());
        if code.last() == ';' {
            init.push(Seq::empty())
        } else {
            init.update(init.len() - 1, init.last().push(code.last()))
        }
    }
}

/// The effect of one SGR parameter on the current style.
pub open spec fn sgr_effect(part: Seq<char>, st: Style, cs: ColorSet, default_color: egui::Color32) -> Style {
    if part == seq!['0'] || part == seq!['0', '0'] {
        (default_color, false)
    } else if part == seq!['1'] || part == seq!['0', '1'] {
        (st.0, true)
    } else if part == seq!['3', '1'] {
        (cs.alert, st.1)
    } else if part == seq!['3', '2'] {
        (cs.primary, st.1)
    } else if part == seq!['3', '3'] {
        (cs.warning, st.1)
    } else if part == seq!['3', '4'] {
        (cs.alternate_1, st.1)
    } else if part == seq!['3', '5'] {
        (cs.alternate_2, st.1)
    } else if part == seq!['3', '6'] {
        (cs.alternate_3, st.1)
    } else {
        st
    }
}

/// The style after applying the parts in order, later parts overriding earlier ones.
pub open spec fn apply_parts(parts: Seq<Seq<char>>, st: Style, cs: ColorSet, default_color: egui::Color32) -> Style
    decreases parts.len(),
{
    if parts.len() == 0 {
        st
    } else {
        sgr_effect(parts.last(), apply_parts(parts.drop_last(), st, cs, default_color), cs, default_color)
    }
}

/// Index of the first letter at or after `j` (the final byte of a CSI sequence), or the end.
pub open spec fn csi_end(s: Seq<char>, j: int) -> int
    decreases s.len() - j,
{
    if j >= s.len() {
        s.len() as int
    } else if is_ascii_alpha(s[j]) {
        j
    } else {
        csi_end(s, j + 1)
    }
}

/// Index just past the BEL or ESC-backslash that ends an OSC body starting at `j`, or the end.
pub open spec fn osc_end(s: Seq<char>, j: int) -> int
    decreases s.len() - j,
{
    if j >= s.len() {
        s.len() as int
    } else if s[j] == BEL {
        j + 1
    } else if s[j] == ESC && j + 1 < s.len() && s[j + 1] == '\\' {
        j + 2
    } else {
        osc_end(s, j + 1)
    }
}

/// Index just past the escape sequence whose marker stands at `i`.
pub open spec fn escape_end(s: Seq<char>, i: int) -> int {
    if i + 1 < s.len() && s[i + 1] == '[' {
        let e = csi_end(s, i + 2);
        if e < s.len() {
            e + 1
        } else {
            e
        }
    } else if i + 1 < s.len() && s[i + 1] == ']' {
        osc_end(s, i + 2)
    } else if i + 1 < s.len() {
        i + 2
    } else {
        i + 1
    }
}

/// The style after the escape sequence whose marker stands at `i`: only a
/// CSI sequence whose parameters are digits and `;` changes it.
pub open spec fn escape_style(s: Seq<char>, i: int, st: Style, cs: ColorSet, default_color: egui::Color32) -> Style {
    if i + 1 < s.len() && s[i + 1] == '[' {
        let code = s.subrange(i + 2, csi_end(s, i + 2));
        if is_sgr_code(code) {
            apply_parts(sgr_parts(code), st, cs, default_color)
        } else {
            st
        }
    } else {
        st
    }
}

/// The run of pending text, if there is any.
pub open spec fn flushed(pending: Seq<char>, st: Style) -> Seq<(Seq<char>, egui::Color32, bool)> {
    if pending.len() > 0 {
        seq![(pending, st.0, st.1)]
    } else {
        Seq::empty()
    }
}

pub proof fn lemma_csi_end_bounds(s: Seq<char>, j: int)
    requires
        0 <= j <= s.len(),
    ensures
        j <= csi_end(s, j) <= s.len(),
        csi_end(s, j) < s.len() ==> is_ascii_alpha(s[csi_end(s, j)]),
        forall|k: int| j <= k < csi_end(s, j) ==> !is_ascii_alpha(#[trigger] s[k]),
    decreases s.len() - j,
{
    if j < s.len() && !is_ascii_alpha(s[j]) {
        lemma_csi_end_bounds(s, j + 1);
    }
}

pub proof fn lemma_osc_end_bounds(s: Seq<char>, j: int)
    requires
        0 <= j <= s.len(),
    ensures
        j <= osc_end(s, j) <= s.len(),
    decreases s.len() - j,
{
    if j < s.len() && s[j] != BEL && !(s[j] == ESC && j + 1 < s.len() && s[j + 1] == '\\') {
        lemma_osc_end_bounds(s, j + 1);
    }
}

pub proof fn lemma_escape_end_bounds(s: Seq<char>, i: int)
    requires
        0 <= i < s.len(),
    ensures
        i < escape_end(s, i) <= s.len(),
{
    if i + 1 < s.len() {
        lemma_csi_end_bounds(s, i + 2);
        lemma_osc_end_bounds(s, i + 2);
    }
}

/// The runs decoded from `s[i..]`, given the style in force and the text
/// pending since the last escape marker.
pub open spec fn scan(s: Seq<char>, i: int, st: Style, pending: Seq<char>, cs: ColorSet, default_color: egui::Color32) -> Seq<(Seq<char>, egui::Color32, bool)>
    decreases s.len() - i,
{
    if i < 0 || i >= s.len() {
        flushed(pending, st)
    } else if s[i] == ESC {
        proof {
            lemma_escape_end_bounds(s, i);
        }
        flushed(pending, st) + scan(s, escape_end(s, i), escape_style(s, i, st, cs, default_color), Seq::empty(), cs, default_color)
    } else {
        scan(s, i + 1, st, pending.push(s[i]), cs, default_color)
    }
}

/// The styled runs that the output `s` decodes to: text starts in
/// `default_color`, not bold.
pub open spec fn decode(s: Seq<char>, cs: ColorSet, default_color: egui::Color32) -> Seq<(Seq<char>, egui::Color32, bool)> {
    scan(s, 0, (default_color, false), Seq::empty(), cs, default_color)
}

pub proof fn lemma_sgr_parts_nonempty(code: Seq<char>)
    ensures
        sgr_parts(code).len() >= 1,
    decreases code.len(),
{
    if code.len() > 0 {
        lemma_sgr_parts_nonempty(code.drop_last());
    }
}

proof fn lemma_scan_plain(s: Seq<char>, i: int, st: Style, pending: Seq<char>, cs: ColorSet, default_color: egui::Color32)
    requires
        0 <= i <= s.len(),
        forall|k: int| i <= k < s.len() ==> s[k] != ESC,
    ensures
        scan(s, i, st, pending, cs, default_color) == flushed(pending + s.subrange(i, s.len() as int), st),
    decreases s.len() - i,
{
    if i < s.len() {
        lemma_scan_plain(s, i + 1, st, pending.push(s[i]), cs, default_color);
        assert(pending.push(s[i]) + s.subrange(i + 1, s.len() as int) =~= pending + s.subrange(i, s.len() as int));
    } else {
        assert(pending + s.subrange(i, s.len() as int) =~= pending);
    }
}

/// Text without escape markers decodes to a single run: the whole text,
/// in the default colour, not bold.
pub proof fn lemma_plain_text(s: Seq<char>, cs: ColorSet, default_color: egui::Color32)
    requires
        s.len() > 0,
        forall|k: int| 0 <= k < s.len() ==> s[k] != ESC,
    ensures
        decode(s, cs, default_color) == seq![(s, default_color, false)],
{
    lemma_scan_plain(s, 0, (default_color, false), Seq::empty(), cs, default_color);
    assert(Seq::<char>::empty() + s.subrange(0, s.len() as int) =~= s);
}

proof fn lemma_literal2(a: char, b: char)
    ensures
        seq![a, b].len() == 2,
        seq![a, b][0] == a,
        seq![a, b][1] == b,
{
}

fn is_alpha(c: char) -> (r: bool)
    ensures
        r == is_ascii_alpha(c),
{
    ('a' <= c && c <= 'z') || ('A' <= c && c <= 'Z')
}

/// The effect of the SGR parameter `s[a..b]` on the style `(color, bold)`.
fn part_effect(s: &Vec<char>, a: usize, b: usize, color: egui::Color32, bold: bool, cs: &ColorSet, default_color: egui::Color32) -> (r: Style)
    requires
        a <= b <= s.len(),
    ensures
        r == sgr_effect(s@.subrange(a as int, b as int), (color, bold), *cs, default_color),
{
    let ghost part = s@.subrange(a as int, b as int);
    if b - a == 1 {
        let c = s[a];
        assert(part =~= seq![c]);
        assert(seq!['0'][0] == '0' && seq!['1'][0] == '1');
        if c == '0' {
            (default_color, false)
        } else if c == '1' {
            (color, true)
        } else {
            (color, bold)
        }
    } else if b - a == 2 {
        let c0 = s[a];
        let c1 = s[a + 1];
        assert(part =~= seq![c0, c1]);
        proof {
            lemma_literal2('0', '0');
            lemma_literal2('0', '1');
            lemma_literal2('3', '1');
            lemma_literal2('3', '2');
            lemma_literal2('3', '3');
            lemma_literal2('3', '4');
            lemma_literal2('3', '5');
            lemma_literal2('3', '6');
            lemma_literal2(c0, c1);
        }
        if c0 == '0' && c1 == '0' {
            (default_color, false)
        } else if c0 == '0' && c1 == '1' {
            (color, true)
        } else if c0 == '3' && c1 == '1' {
            (cs.alert, bold)
        } else if c0 == '3' && c1 == '2' {
            (cs.primary, bold)
        } else if c0 == '3' && c1 == '3' {
            (cs.warning, bold)
        } else if c0 == '3' && c1 == '4' {
            (cs.alternate_1, bold)
        } else if c0 == '3' && c1 == '5' {
            (cs.alternate_2, bold)
        } else if c0 == '3' && c1 == '6' {
            (cs.alternate_3, bold)
        } else {
            (color, bold)
        }
    } else {
        assert(part.len() != 1 && part.len() != 2);
        (color, bold)
    }
}

/// The style after the SGR parameter list `s[from..to]`.
fn apply_sgr(s: &Vec<char>, from: usize, to: usize, color: egui::Color32, bold: bool, cs: &ColorSet, default_color: egui::Color32) -> (r: Style)
    requires
        from <= to <= s.len(),
    ensures
        r == apply_parts(sgr_parts(s@.subrange(from as int, to as int)), (color, bold), *cs, default_color),
{
    let mut st: Style = (color, bold);
    let mut start: usize = from;
    let mut k: usize = from;
    proof {
        assert(s@.subrange(from as int, from as int) =~= Seq::<char>::empty());
        assert(sgr_parts(Seq::<char>::empty()).drop_last() =~= Seq::<Seq<char>>::empty());
    }
    while k < to
        invariant
            from <= start <= k <= to <= s.len(),
            sgr_parts(s@.subrange(from as int, k as int)).last() == s@.subrange(start as int, k as int),
            st == apply_parts(sgr_parts(s@.subrange(from as int, k as int)).drop_last(), (color, bold), *cs, default_color),
        decreases to - k,
    {
        let ghost prev = s@.subrange(from as int, k as int);
        let ghost next = s@.subrange(from as int, k as int + 1);
        proof {
            assert(next.drop_last() =~= prev);
            assert(next.last() == s@[k as int]);
            lemma_sgr_parts_nonempty(prev);
        }
        if s[k] == ';' {
            st = part_effect(s, start, k, st.0, st.1, cs, default_color);
            proof {
                let pp = sgr_parts(prev);
                assert(sgr_parts(next) == pp.push(Seq::empty()));
                assert(sgr_parts(next).drop_last() =~= pp);
                assert(pp =~= pp.drop_last().push(pp.last()));
                assert(s@.subrange(k as int + 1, k as int + 1) =~= Seq::<char>::empty());
            }
            start = k + 1;
        } else {
            proof {
                let pp = sgr_parts(prev);
                let np = sgr_parts(next);
                assert(np == pp.update(pp.len() - 1, pp.last().push(s@[k as int])));
                assert(np.drop_last() =~= pp.drop_last());
                assert(s@.subrange(start as int, k as int + 1) =~= s@.subrange(start as int, k as int).push(s@[k as int]));
            }
        }
        k = k + 1;
    }
    proof {
        let pp = sgr_parts(s@.subrange(from as int, to as int));
        lemma_sgr_parts_nonempty(s@.subrange(from as int, to as int));
        assert(pp =~= pp.drop_last().push(pp.last()));
    }
    part_effect(s, start, to, st.0, st.1, cs, default_color)
}

/// Whether `s[from..to]` holds only digits and `;`.
fn all_sgr_chars(s: &Vec<char>, from: usize, to: usize) -> (r: bool)
    requires
        from <= to <= s.len(),
    ensures
        r == is_sgr_code(s@.subrange(from as int, to as int)),
{
    let mut k: usize = from;
    while k < to
        invariant
            from <= k <= to <= s.len(),
            forall|m: int| from <= m < k ==> is_sgr_char(#[trigger] s@[m]),
        decreases to - k,
    {
        let c = s[k];
        if !(('0' <= c && c <= '9') || c == ';') {
            assert(!is_sgr_char(s@.subrange(from as int, to as int)[k - from]));
            return false;
        }
        k = k + 1;
    }
    assert forall|m: int| 0 <= m < to - from implies #[trigger] is_sgr_char(s@.subrange(from as int, to as int)[m]) by {
        assert(s@.subrange(from as int, to as int)[m] == s@[from + m]);
    }
    true
}

/// Appends the pending text as a run, if there is any.
fn flush(out: &mut Vec<TerminalOutput>, pending: &Vec<char>, st: Style)
    ensures
        runs_of(final(out)@) == runs_of(old(out)@) + flushed(pending@, st),
{
    if pending.len() > 0 {
        let text = string_of(pending);
        out.push(TerminalOutput { text, color: st.0, bold: st.1 });
        assert(runs_of(final(out)@) =~= runs_of(old(out)@) + flushed(pending@, st));
    } else {
        assert(runs_of(final(out)@) =~= runs_of(old(out)@) + flushed(pending@, st));
    }
}

/// Decodes the characters `s` into styled runs (see `decode`).
pub fn parse_ansi_chars(s: &Vec<char>, color_set: &ColorSet, default_color: egui::Color32) -> (r: Vec<TerminalOutput>)
    ensures
        runs_of(r@) == decode(s@, *color_set, default_color),
{
    let n = s.len();
    let mut out: Vec<TerminalOutput> = Vec::new();
    let mut st: Style = (default_color, false);
    let mut pending: Vec<char> = Vec::new();
    let mut i: usize = 0;
    assert(runs_of(out@) =~= Seq::empty());
    while i < n
        invariant
            n == s.len(),
            i <= n,
            runs_of(out@) + scan(s@, i as int, st, pending@, *color_set, default_color) == decode(s@, *color_set, default_color),
        decreases n - i,
    {
        if s[i] == ESC {
            let ghost before = runs_of(out@);
            let ghost st0 = st;
            let ghost pend0 = pending@;
            let ghost i0 = i as int;
            flush(&mut out, &pending, st);
            pending = Vec::new();
            proof {
                lemma_escape_end_bounds(s@, i as int);
            }
            if i + 1 < n && s[i + 1] == '[' {
                let mut j: usize = i + 2;
                proof {
                    lemma_csi_end_bounds(s@, j as int);
                }
                while j < n && !is_alpha(s[j])
                    invariant
                        n == s.len(),
                        i + 2 <= j <= n,
                        j <= csi_end(s@, j as int),
                        csi_end(s@, j as int) == csi_end(s@, i + 2),
                    decreases n - j,
                {
                    j = j + 1;
                    proof {
                        lemma_csi_end_bounds(s@, j as int);
                    }
                }
                assert(j == csi_end(s@, i + 2));
                if all_sgr_chars(s, i + 2, j) {
                    st = apply_sgr(s, i + 2, j, st.0, st.1, color_set, default_color);
                }
                i = if j < n { j + 1 } else { j };
            } else if i + 1 < n && s[i + 1] == ']' {
                let mut j: usize = i + 2;
                while j < n
                    invariant_except_break
                        n == s.len(),
                        i + 2 <= j <= n,
                        osc_end(s@, j as int) == osc_end(s@, i + 2),
                    ensures
                        j == osc_end(s@, i + 2),
                    decreases n - j,
                {
                    if s[j] == BEL {
                        j = j + 1;
                        break;
                    }
                    if s[j] == ESC && j + 1 < n && s[j + 1] == '\\' {
                        j = j + 2;
                        break;
                    }
                    j = j + 1;
                }
                i = j;
            } else if i + 1 < n {
                i = i + 2;
            } else {
                i = i + 1;
            }
            proof {
                assert(i == escape_end(s@, i0));
                assert(st == escape_style(s@, i0, st0, *color_set, default_color));
                assert(pending@ =~= Seq::<char>::empty());
                let rest = scan(s@, i as int, st, pending@, *color_set, default_color);
                assert(scan(s@, i0, st0, pend0, *color_set, default_color) == flushed(pend0, st0) + rest);
                assert(before + (flushed(pend0, st0) + rest) =~= (before + flushed(pend0, st0)) + rest);
            }
        } else {
            pending.push(s[i]);
            i = i + 1;
        }
    }
    flush(&mut out, &pending, st);
    out
}

/// Decodes the terminal output `output` into styled runs (see `decode`).
pub fn parse_ansi_output(output: &str, color_set: &ColorSet, default_color: egui::Color32) -> (r: Vec<TerminalOutput>)
    ensures
        runs_of(r@) == decode(output@, *color_set, default_color),
{
    let s = chars_of(output);
    parse_ansi_chars(&s, color_set, default_color)
}

} // verus!
