use vstd::prelude::*;
use crate::ansi::{chars_of, strip};
use crate::lines::{content_of, views_of, Line, LineCollection};
use crate::text::{contains_text, find_text};

verus! {

/// A tab's identity and the rule that picks its lines.
pub struct Filter {
    pub name: String,
    pub pattern: Option<String>,
}

/// A line passes a filter when the filter has no pattern, an empty one, or
/// one that occurs in the line's text without escape sequences.
pub open spec fn accepts(pattern: Option<Seq<char>>, line: Seq<char>) -> bool {
    match pattern {
        None => true,
        Some(p) => p.len() == 0 || contains_text(strip(line), p),
    }
}

/// The lines of `lines` that pass, in order.
pub open spec fn filtered(pattern: Option<Seq<char>>, lines: Seq<Seq<char>>) -> Seq<Seq<char>>
    decreases lines.len(),
{
    if lines.len() == 0 {
        Seq::empty()
    } else {
        let prev = filtered(pattern, lines.drop_last());
        if accepts(pattern, lines.last()) {
            prev.push(lines.last())
        } else {
            prev
        }
    }
}

impl Filter {
    pub open spec fn pattern_view(&self) -> Option<Seq<char>> {
        match self.pattern {
            Some(p) => Some(p@),
            None => None,
        }
    }

    pub fn new(name: String, pattern: Option<String>) -> (r: Filter)
        ensures
            r.name@ == name@,
            r.pattern_view() == (match pattern {
                Some(p) => Some(p@),
                None => None::<Seq<char>>,
            }),
    {
        Filter { name, pattern }
    }

    pub fn is_match(&self, line: &Line) -> (r: bool)
        requires
            line.wf(),
        ensures
            r == accepts(self.pattern_view(), line.content@),
    {
        match &self.pattern {
            None => true,
            Some(p) => {
                let pc = chars_of(p.as_str());
                if pc.len() == 0 {
                    true
                } else {
                    let tc = chars_of(line.content_without_ansi.as_str());
                    find_text(&tc, &pc)
                }
            },
        }
    }
}

pub open spec fn max_scroll(virtual_height: nat, viewport_height: nat) -> nat {
    if virtual_height > viewport_height {
        (virtual_height - viewport_height) as nat
    } else {
        0
    }
}

pub open spec fn clamp(v: int, max_value: int) -> int {
    if v < 0 {
        0
    } else if v > max_value {
        max_value
    } else {
        v
    }
}

/// A scroll request.
#[derive(Clone, Copy, Debug, PartialEq, Eq, Structural)]
pub enum Offset {
    /// Move by this many lines (positive: towards older lines).
    Line(i32),
    /// Move by this many viewports, four lines short of each.
    Viewport(i32),
    /// Show the oldest lines.
    Top,
    /// Follow the newest lines.
    Bottom,
}

/// The line shift that a scroll request asks for.
pub open spec fn offset_delta(offset: Offset, viewport_height: nat) -> int {
    match offset {
        Offset::Line(v) => v as int,
        Offset::Viewport(v) => v * viewport_height - 4,
        Offset::Top => 0,
        Offset::Bottom => 0,
    }
}

/// One tab: its filter and its scroll position, counted in lines from the
/// newest one (0 follows the tail).
pub struct Buffer {
    pub filter: Filter,
    pub reverse_index: usize,
}

impl Buffer {
    pub fn new(filter: Filter) -> (r: Buffer)
        ensures
            r.filter == filter,
            r.reverse_index == 0,
    {
        Buffer { filter, reverse_index: 0 }
    }

    /// The stored lines that pass the filter, oldest first.
    pub fn parse<'a>(&self, lines: &'a LineCollection) -> (r: Vec<&'a Line>)
        requires
            lines.wf(),
        ensures
            views_of(r@) == filtered(
                self.filter.pattern_view(),
                lines.contents(),
            ),
            forall|i: int| 0 <= i < r@.len() ==> (#[trigger] r@[i]).wf(),
    {
        let mut out: Vec<&'a Line> = Vec::new();
        let n = lines.len();
        let mut k: usize = 0;
        while k < n
            invariant
                lines.wf(),
                n == lines.contents().len(),
                k <= n,
                views_of(out@) == filtered(
                    self.filter.pattern_view(),
                    lines.contents().subrange(0, k as int),
                ),
                forall|i: int| 0 <= i < out@.len() ==> (#[trigger] out@[i]).wf(),
            decreases n - k,
        {
            let line = lines.get(k);
            assert(lines.entries@[k as int].wf());
            let ghost before = out@;
            let ghost prefix = lines.contents().subrange(0, k + 1);
            assert(prefix.drop_last() =~= lines.contents().subrange(0, k as int));
            assert(prefix.last() == content_of(*line));
            if self.filter.is_match(line) {
                out.push(line);
                assert(views_of(out@) =~= views_of(before).push(content_of(*line)));
            }
            k = k + 1;
        }
        assert(lines.contents().subrange(0, n as int) =~= lines.contents());
        out
    }

    /// Number of lines that the filtered view holds.
    pub fn virtual_height(&self, lines: &LineCollection) -> (r: usize)
        requires
            lines.wf(),
        ensures
            r == filtered(self.filter.pattern_view(), lines.contents()).len(),
    {
        let v = self.parse(lines);
        v.len()
    }

    pub fn is_scrolled(&self) -> (r: bool)
        ensures
            r == (self.reverse_index != 0),
    {
        self.reverse_index != 0
    }

    pub fn reset_reverse_index(&mut self)
        ensures
            final(self).reverse_index == 0,
            final(self).filter == old(self).filter,
    {
        self.reverse_index = 0;
    }

    /// Moves the scroll position by `delta` lines, kept within `[0, max_value]`.
    pub fn adjust_reverse_index(&mut self, delta: i128, max_value: usize)
        ensures
            final(self).reverse_index as int == clamp(
                old(self).reverse_index + delta,
                max_value as int,
            ),
            final(self).reverse_index <= max_value,
            final(self).filter == old(self).filter,
    {
        let current = self.reverse_index as i128;
        let target: i128 = if delta > 0 && current > i128::MAX - delta {
            i128::MAX
        } else {
            current + delta
        };
        if target < 0 {
            self.reverse_index = 0;
        } else if target > max_value as i128 {
            self.reverse_index = max_value;
        } else {
            self.reverse_index = target as usize;
        }
    }

    /// Applies a scroll request to a view of `virtual_height` lines shown in
    /// `viewport_height` rows, and returns the new position.
    pub fn scroll(&mut self, offset: Offset, viewport_height: usize, virtual_height: usize) -> (r:
        usize)
        ensures
            r == final(self).reverse_index,
            final(self).filter == old(self).filter,
            final(self).reverse_index <= max_scroll(virtual_height as nat, viewport_height as nat),
            match offset {
                Offset::Top => final(self).reverse_index == max_scroll(
                    virtual_height as nat,
                    viewport_height as nat,
                ),
                Offset::Bottom => final(self).reverse_index == 0,
                _ => final(self).reverse_index == clamp(
                    old(self).reverse_index + offset_delta(offset, viewport_height as nat),
                    max_scroll(virtual_height as nat, viewport_height as nat) as int,
                ),
            },
    {
        let max_value: usize = if virtual_height > viewport_height {
            virtual_height - viewport_height
        } else {
            0
        };
        match offset {
            Offset::Line(v) => self.adjust_reverse_index(v as i128, max_value),
            Offset::Viewport(v) => {
                let a = v as i128;
                let b = viewport_height as i128;
                assert(-0x8000_0000 <= a <= 0x7fff_ffff && 0 <= b <= 0xffff_ffff_ffff_ffff);
                assert(-0x8000_0000_0000_0000_0000_0000 <= a * b <= 0x8000_0000_0000_0000_0000_0000)
                    by (nonlinear_arith)
                    requires
                        -0x8000_0000 <= a <= 0x7fff_ffff,
                        0 <= b <= 0xffff_ffff_ffff_ffff,
                ;
                let delta: i128 = a * b - 4;
                self.adjust_reverse_index(delta, max_value);
            },
            Offset::Top => {
                self.reverse_index = max_value;
            },
            Offset::Bottom => self.reset_reverse_index(),
        }
        self.reverse_index
    }
}


/// `new` has the same tabs as `old`, each with its filter, and every tab but
/// the one at `j` keeps its scroll position.
pub open spec fn kept_except(old: BufferCollection, new: BufferCollection, j: int) -> bool {
    &&& new.buffers@.len() == old.buffers@.len()
    &&& forall|i: int|
        0 <= i < old.buffers@.len() ==> (#[trigger] new.buffers@[i]).filter == old.buffers@[i].filter
    &&& forall|i: int|
        0 <= i < old.buffers@.len() && i != j ==> #[trigger] new.buffers@[i] == old.buffers@[i]
}

/// The tabs, in order, and the one that is selected.
pub struct BufferCollection {
    pub buffers: Vec<Buffer>,
    pub selected: usize,
}

impl BufferCollection {
    pub open spec fn wf(&self) -> bool {
        self.selected < self.buffers@.len()
    }

    /// One tab per filter, each following the tail; the first is selected.
    pub fn from_filters(filters: Vec<Filter>) -> (r: BufferCollection)
        requires
            filters@.len() > 0,
        ensures
            r.wf(),
            r.selected == 0,
            r.buffers@.len() == filters@.len(),
            forall|i: int|
                0 <= i < filters@.len() ==> (#[trigger] r.buffers@[i]).filter == filters@[i]
                    && r.buffers@[i].reverse_index == 0,
    {
        let mut rest = filters;
        let ghost all = rest@;
        let mut buffers: Vec<Buffer> = Vec::new();
        // Filled back to front, then reversed into place.
        while rest.len() > 0
            invariant
                rest@.len() + buffers@.len() == all.len(),
                rest@ == all.subrange(0, rest@.len() as int),
                forall|i: int|
                    0 <= i < buffers@.len() ==> (#[trigger] buffers@[i]).filter == all[all.len()
                        - 1 - i] && buffers@[i].reverse_index == 0,
            decreases rest@.len(),
        {
            let f = rest.pop().unwrap();
            buffers.push(Buffer::new(f));
        }
        let n = buffers.len();
        let mut ordered: Vec<Buffer> = Vec::new();
        while buffers.len() > 0
            invariant
                buffers@.len() + ordered@.len() == n,
                n == all.len(),
                forall|i: int|
                    0 <= i < buffers@.len() ==> (#[trigger] buffers@[i]).filter == all[all.len()
                        - 1 - i] && buffers@[i].reverse_index == 0,
                forall|i: int|
                    0 <= i < ordered@.len() ==> (#[trigger] ordered@[i]).filter == all[i]
                        && ordered@[i].reverse_index == 0,
            decreases buffers@.len(),
        {
            let b = buffers.pop().unwrap();
            ordered.push(b);
        }
        BufferCollection { buffers: ordered, selected: 0 }
    }

    /// Selects the tab on the left; stays on the first one.
    pub fn select_previous(&mut self)
        requires
            old(self).wf(),
        ensures
            final(self).wf(),
            final(self).buffers == old(self).buffers,
            final(self).selected == if old(self).selected > 0 {
                (old(self).selected - 1) as usize
            } else {
                0
            },
    {
        if self.selected > 0 {
            self.selected = self.selected - 1;
        }
    }

    /// Selects the tab on the right; stays on the last one.
    pub fn select_next(&mut self)
        requires
            old(self).wf(),
        ensures
            final(self).wf(),
            final(self).buffers == old(self).buffers,
            final(self).selected == if old(self).selected + 1 < old(self).buffers@.len() {
                (old(self).selected + 1) as usize
            } else {
                old(self).selected
            },
    {
        if self.selected < self.buffers.len() - 1 {
            self.selected = self.selected + 1;
        }
    }

    /// Applies a scroll request to the selected tab; the others keep theirs.
    pub fn scroll_selected(&mut self, offset: Offset, viewport_height: usize, virtual_height: usize) -> (r:
        usize)
        requires
            old(self).wf(),
        ensures
            kept_except(*old(self), *final(self), old(self).selected as int),
            final(self).wf(),
            final(self).selected == old(self).selected,
            final(self).buffers@.len() == old(self).buffers@.len(),
            forall|i: int|
                0 <= i < old(self).buffers@.len() && i != old(self).selected ==> (
                #[trigger] final(self).buffers@[i]) == old(self).buffers@[i],
            final(self).buffers@[old(self).selected as int].filter == old(self).buffers@[old(
                self,
            ).selected as int].filter,
            r == final(self).buffers@[old(self).selected as int].reverse_index,
            r <= max_scroll(virtual_height as nat, viewport_height as nat),
            match offset {
                Offset::Top => r == max_scroll(virtual_height as nat, viewport_height as nat),
                Offset::Bottom => r == 0,
                _ => r == clamp(
                    old(self).buffers@[old(self).selected as int].reverse_index + offset_delta(
                        offset,
                        viewport_height as nat,
                    ),
                    max_scroll(virtual_height as nat, viewport_height as nat) as int,
                ),
            },
    {
        let i = self.selected;
        self.buffers[i].scroll(offset, viewport_height, virtual_height)
    }

    /// Brings the selected tab's position down to `max_value` where it is above.
    pub fn limit_selected(&mut self, max_value: usize)
        requires
            old(self).wf(),
        ensures
            kept_except(*old(self), *final(self), old(self).selected as int),
            final(self).wf(),
            final(self).selected == old(self).selected,
            final(self).buffers@.len() == old(self).buffers@.len(),
            forall|i: int|
                0 <= i < old(self).buffers@.len() && i != old(self).selected ==> (
                #[trigger] final(self).buffers@[i]) == old(self).buffers@[i],
            final(self).buffers@[old(self).selected as int].filter == old(self).buffers@[old(
                self,
            ).selected as int].filter,
            final(self).buffers@[old(self).selected as int].reverse_index == (if old(
                self,
            ).buffers@[old(self).selected as int].reverse_index > max_value {
                max_value
            } else {
                old(self).buffers@[old(self).selected as int].reverse_index
            }),
    {
        let i = self.selected;
        if self.buffers[i].reverse_index > max_value {
            self.buffers[i].reverse_index = max_value;
        }
    }

    /// Moves the selected tab by `delta` lines within `[0, max_value]`.
    pub fn adjust_selected(&mut self, delta: i128, max_value: usize)
        requires
            old(self).wf(),
        ensures
            kept_except(*old(self), *final(self), old(self).selected as int),
            final(self).wf(),
            final(self).selected == old(self).selected,
            final(self).buffers@.len() == old(self).buffers@.len(),
            forall|i: int|
                0 <= i < old(self).buffers@.len() && i != old(self).selected ==> (
                #[trigger] final(self).buffers@[i]) == old(self).buffers@[i],
            final(self).buffers@[old(self).selected as int].filter == old(self).buffers@[old(
                self,
            ).selected as int].filter,
            final(self).buffers@[old(self).selected as int].reverse_index as int == clamp(
                old(self).buffers@[old(self).selected as int].reverse_index + delta,
                max_value as int,
            ),
    {
        let i = self.selected;
        self.buffers[i].adjust_reverse_index(delta, max_value);
    }

    pub fn selected_item(&self) -> (r: &Buffer)
        requires
            self.wf(),
        ensures
            *r == self.buffers@[self.selected as int],
    {
        &self.buffers[self.selected]
    }
}

} // verus!
