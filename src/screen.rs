//! What a pane shows: the styled runs broken into lines (line-edit mode),
//! or the raw output without the mode-switch sequences (raw mode).
use vstd::prelude::*;
use crate::parser::{runs_of, TerminalOutput, ESC};
use crate::text::{chars_of, string_of};

verus! {

pub type Run = (Seq<char>, egui::Color32, bool);

// ----------------------------------------------------------------- raw text

/// `s` with every occurrence of `m` taken out, matching from the left.
pub open spec fn without(s: Seq<char>, m: Seq<char>) -> Seq<char>
    decreases s.len(),
{
    if s.len() == 0 {
        s
    } else if 0 < m.len() <= s.len() && s.subrange(0, m.len() as int) == m {
        without(s.subrange(m.len() as int, s.len() as int), m)
    } else {
        seq![s[0]] + without(s.subrange(1, s.len() as int), m)
    }
}

/// The sequences that switch the alternate screen and the cursor on and off.
pub open spec fn mode_markers() -> Seq<Seq<char>> {
    seq![
        seq![ESC, '[', '?', '1', '0', '4', '9', 'h'],
        seq![ESC, '[', '?', '1', '0', '4', '9', 'l'],
        seq![ESC, '[', '?', '2', '5', 'l'],
        seq![ESC, '[', '?', '2', '5', 'h'],
    ]
}

/// Output as raw mode shows it: without the four mode-switch sequences,
/// taken out one after the other.
pub open spec fn raw_view(s: Seq<char>) -> Seq<char> {
    let m = mode_markers();
    without(without(without(without(s, m[0]), m[1]), m[2]), m[3])
}

/// Whether `m` occurs in `s` at `i`.
fn matches_at(s: &Vec<char>, i: usize, m: &Vec<char>) -> (r: bool)
    requires
        i <= s.len(),
    ensures
        r == (i + m.len() <= s.len() && s@.subrange(i as int, i + m.len()) == m@),
{
    if m.len() > s.len() - i {
        return false;
    }
    let mut t: usize = 0;
    while t < m.len()
        invariant
            i + m.len() <= s.len(),
            t <= m.len(),
            forall|u: int| 0 <= u < t ==> s@[i + u] == m@[u],
        decreases m.len() - t,
    {
        if s[i + t] != m[t] {
            assert(s@.subrange(i as int, i + m.len())[t as int] == s@[i + t]);
            return false;
        }
        t = t + 1;
    }
    assert(s@.subrange(i as int, i + m.len()) =~= m@);
    true
}

/// `s` without the occurrences of `m` (see `without`).
pub fn remove_all(s: &Vec<char>, m: &Vec<char>) -> (r: Vec<char>)
    ensures
        r@ == without(s@, m@),
{
    let n = s.len();
    let mut out: Vec<char> = Vec::new();
    let mut i: usize = 0;
    assert(s@.subrange(0, n as int) =~= s@);
    assert(out@ + without(s@, m@) =~= without(s@, m@));
    while i < n
        invariant
            n == s.len(),
            i <= n,
            out@ + without(s@.subrange(i as int, n as int), m@) == without(s@, m@),
        decreases n - i,
    {
        let ghost rest = s@.subrange(i as int, n as int);
        if m.len() > 0 && matches_at(s, i, m) {
            proof {
                assert(rest.subrange(0, m@.len() as int) =~= s@.subrange(i as int, i + m@.len()));
                assert(rest.subrange(m@.len() as int, rest.len() as int) =~= s@.subrange(i + m@.len(), n as int));
            }
            i = i + m.len();
        } else {
            proof {
                if 0 < m@.len() <= rest.len() {
                    assert(rest.subrange(0, m@.len() as int) =~= s@.subrange(i as int, i + m@.len()));
                }
                assert(rest.subrange(1, rest.len() as int) =~= s@.subrange(i + 1, n as int));
                assert(out@.push(s@[i as int]) + without(rest.subrange(1, rest.len() as int), m@) =~= out@ + (seq![rest[0]]
                    + without(rest.subrange(1, rest.len() as int), m@)));
            }
            out.push(s[i]);
            i = i + 1;
        }
    }
    assert(out@ + without(s@.subrange(n as int, n as int), m@) =~= out@);
    out
}

/// The output `s` as raw mode shows it (see `raw_view`).
pub fn raw_text(s: &Vec<char>) -> (r: String)
    ensures
        r@ == raw_view(s@),
{
    let m0 = vec![ESC, '[', '?', '1', '0', '4', '9', 'h'];
    let m1 = vec![ESC, '[', '?', '1', '0', '4', '9', 'l'];
    let m2 = vec![ESC, '[', '?', '2', '5', 'l'];
    let m3 = vec![ESC, '[', '?', '2', '5', 'h'];
    proof {
        assert(m0@ =~= mode_markers()[0]);
        assert(m1@ =~= mode_markers()[1]);
        assert(m2@ =~= mode_markers()[2]);
        assert(m3@ =~= mode_markers()[3]);
    }
    let a = remove_all(s, &m0);
    let b = remove_all(&a, &m1);
    let c = remove_all(&b, &m2);
    let d = remove_all(&c, &m3);
    string_of(&d)
}

// -------------------------------------------------------------------- lines

/// `s` with each CR LF pair turned into a single LF.
pub open spec fn crlf_to_lf(s: Seq<char>) -> Seq<char>
    decreases s.len(),
{
    if s.len() == 0 {
        s
    } else if s.len() >= 2 && s[0] == '\r' && s[1] == '\n' {
        seq!['\n'] + crlf_to_lf(s.subrange(2, s.len() as int))
    } else {
        seq![s[0]] + crlf_to_lf(s.subrange(1, s.len() as int))
    }
}

pub open spec fn is_break(c: char) -> bool {
    c == '\n' || c == '\r'
}

/// The pieces of `s` between line breaks (at least one, maybe empty).
pub open spec fn pieces(s: Seq<char>) -> Seq<Seq<char>>
    decreases s.len(),
{
    if s.len() == 0 {
        seq![Seq::empty()]
    } else {
        let init = pieces(s.drop_last());
        if is_break(s.last()) {
            init.push(Seq::empty())
        } else {
            init.update(init.len() - 1, init.last().push(s.last()))
        }
    }
}

/// The current line with `piece` drawn on it in the given style, if there is anything to draw.
pub open spec fn extend(cur: Seq<Run>, piece: Seq<char>, color: egui::Color32, bold: bool) -> Seq<Run> {
    if piece.len() > 0 {
        cur.push((piece, color, bold))
    } else {
        cur
    }
}

/// The finished lines and the current line after the pieces `ps` of one
/// run: the first piece goes on the current line, and each later one ends
/// the current line and starts a new one.
pub open spec fn place(done: Seq<Seq<Run>>, cur: Seq<Run>, ps: Seq<Seq<char>>, color: egui::Color32, bold: bool) -> (Seq<Seq<Run>>, Seq<Run>)
    decreases ps.len(),
{
    if ps.len() == 0 {
        (done, cur)
    } else {
        let prev = place(done, cur, ps.drop_last(), color, bold);
        if ps.len() == 1 {
            (prev.0, extend(prev.1, ps[0], color, bold))
        } else {
            (prev.0.push(prev.1), extend(Seq::empty(), ps.last(), color, bold))
        }
    }
}

/// The finished lines and the current line that the runs `runs` make.
pub open spec fn lines_of(runs: Seq<Run>) -> (Seq<Seq<Run>>, Seq<Run>)
    decreases runs.len(),
{
    if runs.len() == 0 {
        (Seq::empty(), Seq::empty())
    } else {
        let prev = lines_of(runs.drop_last());
        let r = runs.last();
        place(prev.0, prev.1, pieces(crlf_to_lf(r.0)), r.1, r.2)
    }
}

proof fn lemma_pieces_nonempty(s: Seq<char>)
    ensures
        pieces(s).len() >= 1,
    decreases s.len(),
{
    if s.len() > 0 {
        lemma_pieces_nonempty(s.drop_last());
    }
}

fn normalize_newlines(s: &Vec<char>) -> (r: Vec<char>)
    ensures
        r@ == crlf_to_lf(s@),
{
    let n = s.len();
    let mut out: Vec<char> = Vec::new();
    let mut i: usize = 0;
    assert(s@.subrange(0, n as int) =~= s@);
    assert(out@ + crlf_to_lf(s@) =~= crlf_to_lf(s@));
    while i < n
        invariant
            n == s.len(),
            i <= n,
            out@ + crlf_to_lf(s@.subrange(i as int, n as int)) == crlf_to_lf(s@),
        decreases n - i,
    {
        let ghost rest = s@.subrange(i as int, n as int);
        if i + 1 < n && s[i] == '\r' && s[i + 1] == '\n' {
            proof {
                assert(rest.subrange(2, rest.len() as int) =~= s@.subrange(i + 2, n as int));
                assert(out@.push('\n') + crlf_to_lf(rest.subrange(2, rest.len() as int)) =~= out@ + (seq!['\n']
                    + crlf_to_lf(rest.subrange(2, rest.len() as int))));
            }
            out.push('\n');
            i = i + 2;
        } else {
            proof {
                assert(rest.subrange(1, rest.len() as int) =~= s@.subrange(i + 1, n as int));
                assert(out@.push(s@[i as int]) + crlf_to_lf(rest.subrange(1, rest.len() as int)) =~= out@ + (seq![rest[0]]
                    + crlf_to_lf(rest.subrange(1, rest.len() as int))));
            }
            out.push(s[i]);
            i = i + 1;
        }
    }
    assert(out@ + crlf_to_lf(s@.subrange(n as int, n as int)) =~= out@);
    out
}

/// The lines a view of runs stands for.
pub open spec fn lines_view(v: Seq<Vec<TerminalOutput>>) -> Seq<Seq<Run>> {
    v.map_values(|l: Vec<TerminalOutput>| runs_of(l@))
}

/// Puts `piece` on the current line in the given style, if it is not empty.
fn extend_line(cur: &mut Vec<TerminalOutput>, piece: &Vec<char>, color: egui::Color32, bold: bool)
    ensures
        runs_of(final(cur)@) == extend(runs_of(old(cur)@), piece@, color, bold),
{
    if piece.len() > 0 {
        cur.push(TerminalOutput { text: string_of(piece), color, bold });
    }
    assert(runs_of(final(cur)@) =~= extend(runs_of(old(cur)@), piece@, color, bold));
}

/// Breaks styled runs into lines at CR, LF and CR LF. Returns the finished
/// lines, each a list of runs, and the current (last, unfinished) line.
/// Empty pieces are not kept, so a finished line may hold no run.
pub fn split_lines(segments: &Vec<TerminalOutput>) -> (r: (Vec<Vec<TerminalOutput>>, Vec<TerminalOutput>))
    ensures
        (lines_view(r.0@), runs_of(r.1@)) == lines_of(runs_of(segments@)),
{
    let mut done: Vec<Vec<TerminalOutput>> = Vec::new();
    let mut cur: Vec<TerminalOutput> = Vec::new();
    let mut k: usize = 0;
    proof {
        assert(runs_of(segments@).subrange(0, 0) =~= Seq::<Run>::empty());
        assert(lines_view(done@) =~= Seq::<Seq<Run>>::empty());
        assert(runs_of(cur@) =~= Seq::<Run>::empty());
    }
    while k < segments.len()
        invariant
            k <= segments.len(),
            (lines_view(done@), runs_of(cur@)) == lines_of(runs_of(segments@).subrange(0, k as int)),
        decreases segments.len() - k,
    {
        let ghost before = (lines_view(done@), runs_of(cur@));
        let seg = &segments[k];
        let color = seg.color;
        let bold = seg.bold;
        let text = normalize_newlines(&chars_of(seg.text.as_str()));
        let ghost ps = pieces(text@);
        // walk the text, keeping the piece under way in `piece`
        let mut piece: Vec<char> = Vec::new();
        let mut j: usize = 0;
        let mut first = true;
        proof {
            assert(text@.subrange(0, 0) =~= Seq::<char>::empty());
            assert(pieces(Seq::<char>::empty()).drop_last() =~= Seq::<Seq<char>>::empty());
        }
        while j < text.len()
            invariant
                j <= text.len(),
                pieces(text@.subrange(0, j as int)).last() == piece@,
                first == (pieces(text@.subrange(0, j as int)).len() == 1),
                (lines_view(done@), runs_of(cur@)) == place(before.0, before.1, pieces(text@.subrange(0, j as int)).drop_last(), color, bold),
            decreases text.len() - j,
        {
            let ghost prefix = text@.subrange(0, j as int);
            let ghost next = text@.subrange(0, j as int + 1);
            proof {
                assert(next.drop_last() =~= prefix);
                lemma_pieces_nonempty(prefix);
            }
            let c = text[j];
            if c == '\n' || c == '\r' {
                proof {
                    let pp = pieces(prefix);
                    assert(pieces(next) == pp.push(Seq::empty()));
                    assert(pieces(next).drop_last() =~= pp);
                    assert(pp =~= pp.drop_last().push(pp.last()));
                }
                let ghost st = (lines_view(done@), runs_of(cur@));
                if first {
                    extend_line(&mut cur, &piece, color, bold);
                } else {
                    let mut fresh: Vec<TerminalOutput> = Vec::new();
                    extend_line(&mut fresh, &piece, color, bold);
                    assert(runs_of(Seq::<TerminalOutput>::empty()) =~= Seq::<Run>::empty());
                    let mut line: Vec<TerminalOutput> = Vec::new();
                    std::mem::swap(&mut line, &mut cur);
                    done.push(line);
                    cur = fresh;
                    assert(lines_view(done@) =~= st.0.push(st.1));
                }
                piece = Vec::new();
                first = false;
                proof {
                    assert(pieces(next).last() =~= piece@);
                }
            } else {
                proof {
                    let pp = pieces(prefix);
                    let np = pieces(next);
                    assert(np == pp.update(pp.len() - 1, pp.last().push(c)));
                    assert(np.drop_last() =~= pp.drop_last());
                }
                piece.push(c);
            }
            j = j + 1;
        }
        proof {
            assert(text@.subrange(0, text@.len() as int) =~= text@);
            lemma_pieces_nonempty(text@);
            assert(ps =~= ps.drop_last().push(ps.last()));
        }
        if first {
            extend_line(&mut cur, &piece, color, bold);
        } else {
            let ghost st = (lines_view(done@), runs_of(cur@));
            let mut fresh: Vec<TerminalOutput> = Vec::new();
            extend_line(&mut fresh, &piece, color, bold);
            assert(runs_of(Seq::<TerminalOutput>::empty()) =~= Seq::<Run>::empty());
            let mut line: Vec<TerminalOutput> = Vec::new();
            std::mem::swap(&mut line, &mut cur);
            done.push(line);
            cur = fresh;
            assert(lines_view(done@) =~= st.0.push(st.1));
        }
        proof {
            let all = runs_of(segments@);
            assert(all.subrange(0, k as int + 1).drop_last() =~= all.subrange(0, k as int));
            assert(all.subrange(0, k as int + 1).last() == segments@[k as int]@);
        }
        k = k + 1;
    }
    proof {
        assert(runs_of(segments@).subrange(0, segments@.len() as int) =~= runs_of(segments@));
    }
    (done, cur)
}

} // verus!
