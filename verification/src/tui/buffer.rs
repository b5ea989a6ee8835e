//! One scrollback pane's worth of text.
//!
//! Two ideas make this more than a list of strings. It is capped, so a lab
//! left running overnight cannot eat memory. And it distinguishes following
//! the output from looking at it: scroll up and new lines stop yanking the
//! view away, which is the difference between being able to read what just
//! happened and watching it scroll past.

use std::collections::VecDeque;
use vstd::prelude::*;

verus! {

/// The most lines a pane keeps.
pub const MAX_LINES: usize = 2000;

/// `a - b`, or 0 when `b` is larger.
pub open spec fn sat_sub(a: int, b: int) -> nat {
    if a > b {
        (a - b) as nat
    } else {
        0
    }
}

/// The smaller of two numbers.
pub open spec fn min_nat(a: nat, b: nat) -> nat {
    if a < b {
        a
    } else {
        b
    }
}

/// A pane's scrollback.
pub struct Buffer {
    pub lines: VecDeque<String>,
    /// Lines hidden at the bottom while looking through scrollback.
    pub from_bottom: usize,
    pub viewport_height: usize,
    pub auto_follow: bool,
}

/// A `Buffer` with its lines taken as character sequences.
#[verifier::ext_equal]
pub struct BufferView {
    pub lines: Seq<Seq<char>>,
    pub from_bottom: nat,
    pub viewport_height: nat,
    pub auto_follow: bool,
}

impl View for Buffer {
    type V = BufferView;

    open spec fn view(&self) -> BufferView {
        BufferView {
            lines: self.lines.deep_view(),
            from_bottom: self.from_bottom as nat,
            viewport_height: self.viewport_height as nat,
            auto_follow: self.auto_follow,
        }
    }
}

/// How far up the view can go: as many lines as do not fit.
pub open spec fn scroll_limit(b: BufferView) -> nat {
    sat_sub(b.lines.len() as int, b.viewport_height as int)
}

/// What holds of every buffer: it is capped, following means looking at the
/// bottom, and the view never scrolls past the top.
pub open spec fn buffer_ok(b: BufferView) -> bool {
    &&& b.lines.len() <= MAX_LINES
    &&& b.auto_follow ==> b.from_bottom == 0
    &&& b.from_bottom <= scroll_limit(b)
}

/// The lines shown in a viewport of `height` lines: the `height` lines that
/// end `from_bottom` lines above the bottom.
pub open spec fn window(lines: Seq<Seq<char>>, from_bottom: nat, height: nat) -> Seq<Seq<char>> {
    let end = sat_sub(lines.len() as int, from_bottom as int);
    let start = sat_sub(end as int, height as int);
    lines.subrange(start as int, end as int)
}

/// The lines after appending one and dropping the oldest beyond the cap.
pub open spec fn capped_push(lines: Seq<Seq<char>>, line: Seq<char>) -> Seq<Seq<char>> {
    let l = lines.push(line);
    if l.len() > MAX_LINES {
        l.subrange(l.len() - MAX_LINES, l.len() as int)
    } else {
        l
    }
}

/// The buffer after one line is pushed: the view follows the bottom when
/// following, and otherwise moves up with the text so it stays put.
pub open spec fn pushed(b: BufferView, line: Seq<char>) -> BufferView {
    let lines = capped_push(b.lines, line);
    BufferView {
        lines,
        from_bottom: if b.auto_follow {
            0
        } else {
            min_nat(b.from_bottom + 1, sat_sub(lines.len() as int, b.viewport_height as int))
        },
        ..b
    }
}

/// The buffer after looking `n` lines further up.
pub open spec fn scrolled_up(b: BufferView, n: nat) -> BufferView {
    let fb = min_nat(b.from_bottom + n, scroll_limit(b));
    BufferView { from_bottom: fb, auto_follow: b.auto_follow && fb == 0, ..b }
}

/// The buffer after looking `n` lines further down.
pub open spec fn scrolled_down(b: BufferView, n: nat) -> BufferView {
    let fb = sat_sub(b.from_bottom as int, n as int);
    BufferView { from_bottom: fb, auto_follow: b.auto_follow || fb == 0, ..b }
}

/// The buffer back at the bottom, following.
pub open spec fn followed(b: BufferView) -> BufferView {
    BufferView { from_bottom: 0, auto_follow: true, ..b }
}

/// The buffer with following paused, or resumed at the bottom.
pub open spec fn toggled(b: BufferView) -> BufferView {
    if b.auto_follow {
        BufferView { auto_follow: false, ..b }
    } else {
        followed(b)
    }
}

/// The buffer emptied, following again.
pub open spec fn cleared(b: BufferView) -> BufferView {
    BufferView { lines: Seq::empty(), from_bottom: 0, auto_follow: true, ..b }
}

/// How far a page key moves in a buffer.
pub open spec fn page_of(b: BufferView) -> nat {
    if b.viewport_height > 1 {
        (b.viewport_height - 1) as nat
    } else {
        1
    }
}

impl Buffer {
    /// What holds of every buffer.
    pub open spec fn ok(&self) -> bool {
        buffer_ok(self@)
    }

    /// An empty pane, following its output.
    pub fn new() -> (b: Self)
        ensures
            b@ == (BufferView { lines: Seq::empty(), from_bottom: 0, viewport_height: 0, auto_follow: true }),
            b.ok(),
    {
        let b = Buffer { lines: VecDeque::new(), from_bottom: 0, viewport_height: 0, auto_follow: true };
        assert(b.lines.deep_view() =~= Seq::<Seq<char>>::empty());
        b
    }

    /// Appends a line, dropping the oldest beyond the cap.
    pub fn push(&mut self, line: String)
        requires
            old(self).ok(),
        ensures
            final(self)@ == pushed(old(self)@, line@),
            final(self).ok(),
    {
        let ghost before = self.lines.deep_view();
        let ghost text = line@;
        self.lines.push_back(line);
        assert(self.lines.deep_view() =~= before.push(text));
        if self.lines.len() > MAX_LINES {
            let ghost l = self.lines.deep_view();
            let _ = self.lines.pop_front();
            assert(self.lines.deep_view() =~= l.subrange(l.len() - MAX_LINES, l.len() as int));
        }
        if self.auto_follow {
            self.from_bottom = 0;
        } else {
            let max = if self.lines.len() > self.viewport_height {
                self.lines.len() - self.viewport_height
            } else {
                0
            };
            let up = if self.from_bottom < usize::MAX { self.from_bottom + 1 } else { self.from_bottom };
            self.from_bottom = if up < max { up } else { max };
        }
    }

    /// Appends a line of output; `force_follow` first returns the view to
    /// the bottom, for a pane nobody is looking at.
    pub fn push_output(&mut self, line: String, force_follow: bool)
        requires
            old(self).ok(),
        ensures
            final(self)@ == pushed(
                if force_follow {
                    BufferView { from_bottom: 0, auto_follow: true, ..old(self)@ }
                } else {
                    old(self)@
                },
                line@,
            ),
            final(self).ok(),
    {
        if force_follow {
            self.follow();
        }
        self.push(line);
    }

    /// Empties the pane and follows again.
    pub fn clear(&mut self)
        ensures
            final(self)@ == (BufferView {
                lines: Seq::empty(),
                from_bottom: 0,
                auto_follow: true,
                ..old(self)@
            }),
            final(self).ok(),
    {
        self.lines.clear();
        self.from_bottom = 0;
        self.auto_follow = true;
        assert(self.lines.deep_view() =~= Seq::<Seq<char>>::empty());
    }

    /// Looks `n` lines further up, no further than the top; anything off the
    /// bottom stops following.
    pub fn scroll_up(&mut self, n: usize)
        requires
            old(self).ok(),
        ensures
            final(self)@ == scrolled_up(old(self)@, n as nat),
            final(self)@.from_bottom == min_nat((old(self)@.from_bottom + n) as nat, scroll_limit(old(self)@)),
            final(self)@.auto_follow == (old(self)@.auto_follow && final(self)@.from_bottom == 0),
            final(self)@.lines == old(self)@.lines,
            final(self)@.viewport_height == old(self)@.viewport_height,
            final(self).ok(),
    {
        let max = if self.lines.len() > self.viewport_height {
            self.lines.len() - self.viewport_height
        } else {
            0
        };
        let up = if n <= max - self.from_bottom { self.from_bottom + n } else { max };
        self.from_bottom = up;
        if self.from_bottom > 0 {
            self.auto_follow = false;
        }
    }

    /// Looks `n` lines further down; reaching the bottom follows again.
    pub fn scroll_down(&mut self, n: usize)
        requires
            old(self).ok(),
        ensures
            final(self)@ == scrolled_down(old(self)@, n as nat),
            final(self)@.from_bottom == sat_sub(old(self)@.from_bottom as int, n as int),
            final(self)@.auto_follow == (old(self)@.auto_follow || final(self)@.from_bottom == 0),
            final(self)@.lines == old(self)@.lines,
            final(self)@.viewport_height == old(self)@.viewport_height,
            final(self).ok(),
    {
        self.from_bottom = if self.from_bottom > n { self.from_bottom - n } else { 0 };
        if self.from_bottom == 0 {
            self.auto_follow = true;
        }
    }

    /// Back to the latest output, following it.
    pub fn follow(&mut self)
        ensures
            final(self)@ == (BufferView { from_bottom: 0, auto_follow: true, ..old(self)@ }),
    {
        self.from_bottom = 0;
        self.auto_follow = true;
    }

    /// Pauses following, or resumes it at the bottom.
    pub fn toggle_follow(&mut self)
        requires
            old(self).ok(),
        ensures
            old(self)@.auto_follow ==> final(self)@ == (BufferView { auto_follow: false, ..old(self)@ }),
            final(self)@ == toggled(old(self)@),
            !old(self)@.auto_follow ==> final(self)@ == (BufferView {
                from_bottom: 0,
                auto_follow: true,
                ..old(self)@
            }),
            final(self).ok(),
    {
        if self.auto_follow {
            self.auto_follow = false;
        } else {
            self.follow();
        }
    }

    /// How far a page key moves: one line less than the viewport, at least
    /// one.
    pub fn page_size(&self) -> (n: usize)
        ensures
            n == page_of(self@),
            n == if self.viewport_height > 1 {
                (self.viewport_height - 1) as nat
            } else {
                1nat
            },
    {
        if self.viewport_height > 1 {
            self.viewport_height - 1
        } else {
            1
        }
    }

    /// The lines to draw in a viewport of `height` lines. Remembers the
    /// height, so scrolling knows how far it may go, and clamps the view to
    /// it; a pane that now fits its text follows again.
    pub fn visible(&mut self, height: usize) -> (v: Vec<String>)
        requires
            old(self).ok(),
        ensures
            ({
                let max = sat_sub(old(self)@.lines.len() as int, height as int);
                let fb = min_nat(old(self)@.from_bottom, max);
                &&& final(self)@ == (BufferView {
                    viewport_height: height as nat,
                    from_bottom: fb,
                    auto_follow: old(self)@.auto_follow || max == 0,
                    ..old(self)@
                })
                &&& v.deep_view() == if height == 0 {
                    Seq::empty()
                } else {
                    window(old(self)@.lines, fb, height as nat)
                }
            }),
            final(self).ok(),
    {
        self.viewport_height = height;
        let n = self.lines.len();
        let max = if n > height { n - height } else { 0 };
        if self.from_bottom > max {
            self.from_bottom = max;
        }
        if max == 0 {
            self.auto_follow = true;
        }
        let mut out: Vec<String> = Vec::new();
        assert(self.lines.deep_view().len() == n);
        if height == 0 || n == 0 {
            assert(out.deep_view() =~= if height == 0 {
                Seq::empty()
            } else {
                window(self.lines.deep_view(), self.from_bottom as nat, height as nat)
            });
            return out;
        }
        let end = n - self.from_bottom;
        let start = if end > height { end - height } else { 0 };
        let mut i = start;
        while i < end
            invariant
                start <= i <= end,
                end <= self.lines@.len(),
                out.deep_view() == self.lines.deep_view().subrange(start as int, i as int),
            decreases end - i,
        {
            let ghost before = out.deep_view();
            let line = self.lines[i].clone();
            assert(line@ == self.lines.deep_view()[i as int]);
            out.push(line);
            assert(out.deep_view() =~= before.push(self.lines.deep_view()[i as int]));
            i = i + 1;
            assert(out.deep_view() =~= self.lines.deep_view().subrange(start as int, i as int));
        }
        out
    }
}

/// Following brings back the latest output: after `follow`, a viewport of
/// `height` lines shows the last `height` lines.
pub proof fn lemma_follow_shows_latest(b: BufferView, height: nat)
    requires
        height > 0,
    ensures
        window(b.lines, 0, height) == b.lines.subrange(sat_sub(b.lines.len() as int, height as int) as int, b.lines.len() as int),
{
}

/// A paused pane stays put: once the pane is full (it holds at least a
/// viewport of text) and below the cap, pushing a line while not following
/// shows the same lines as before.
pub proof fn lemma_paused_view_stays_put(b: BufferView, line: Seq<char>)
    requires
        buffer_ok(b),
        !b.auto_follow,
        b.lines.len() < MAX_LINES,
        b.viewport_height > 0,
        b.lines.len() >= b.viewport_height,
    ensures
        window(pushed(b, line).lines, pushed(b, line).from_bottom, b.viewport_height) == window(
            b.lines,
            b.from_bottom,
            b.viewport_height,
        ),
        buffer_ok(pushed(b, line)),
{
    let p = pushed(b, line);
    assert(p.lines == b.lines.push(line));
    assert(p.from_bottom == b.from_bottom + 1);
    let end = sat_sub(b.lines.len() as int, b.from_bottom as int);
    let start = sat_sub(end as int, b.viewport_height as int);
    assert(p.lines.subrange(start as int, end as int) =~= b.lines.subrange(start as int, end as int));
}

/// Whatever happens to a pane, it keeps at most `MAX_LINES` lines: pushing
/// onto a full pane drops exactly the oldest line.
pub proof fn lemma_push_keeps_the_cap(b: BufferView, line: Seq<char>)
    requires
        buffer_ok(b),
    ensures
        pushed(b, line).lines.len() <= MAX_LINES,
        pushed(b, line).lines.last() == line,
        b.lines.len() == MAX_LINES ==> pushed(b, line).lines == b.lines.drop_first().push(line),
{
    if b.lines.len() == MAX_LINES {
        assert(pushed(b, line).lines =~= b.lines.drop_first().push(line));
    }
}

} // verus!
