use vstd::prelude::*;
use crate::buffer::{
    clamp, filtered, kept_except, max_scroll, offset_delta, BufferCollection, Filter, Offset,
};
use crate::lines::{trim, text_of, views_of, Line, LineCollection};
use crate::search::{lemma_match_positions_in_range, match_positions, next_cursor, previous_cursor, QueryState, Search, SearchMode};

verus! {

/// Which way to switch tabs.
#[derive(Clone, Copy, Debug, PartialEq, Eq, Structural)]
pub enum Direction {
    Left,
    Right,
}

/// A request of the search field.
#[derive(Debug)]
pub enum SearchAction {
    /// The input field now holds this text.
    ReadInput(String),
    FindNextMatch,
    FindPreviousMatch,
    ToggleFilterMode,
}

/// What the dispatcher is handed on each turn of its loop.
#[derive(Debug)]
pub enum Event {
    SelectMenuItem(Direction),
    ScrollContents(Offset),
    Search(SearchAction),
    /// The viewport now has this many rows.
    Resize(usize),
    Quit,
    /// No user event came in time; these lines were drained from the queue.
    Idle(Vec<String>),
}

/// What the rendering side has to do after a turn.
#[derive(Clone, Copy, Debug, PartialEq, Eq, Structural)]
pub enum Outcome {
    Nothing,
    /// Move the viewport to this reverse index.
    Scroll(usize),
    /// Print the current view again and move to the selected tab's position.
    Redraw,
    Quit,
}

/// Number of lines that a tab shows: all lines its filter passes, or, when
/// a query filters them down, the matching ones among them.
pub open spec fn height_of(
    pattern: Option<Seq<char>>,
    contents: Seq<Seq<char>>,
    text: Seq<char>,
    mode: SearchMode,
) -> nat {
    let v = filtered(pattern, contents);
    if mode == SearchMode::FilterDown && text.len() > 0 {
        match_positions(text, v).len()
    } else {
        v.len()
    }
}

pub open spec fn min_nat(a: nat, b: nat) -> nat {
    if a < b {
        a
    } else {
        b
    }
}

/// The viewer's state: the line store, the tabs, the search and the
/// viewport height.
pub struct Flow {
    pub lines: LineCollection,
    pub buffer_collection: BufferCollection,
    pub search: Search,
    pub viewport_height: usize,
    pub running: bool,
}

impl Flow {
    pub open spec fn selected(&self) -> int {
        self.buffer_collection.selected as int
    }

    pub open spec fn pattern(&self) -> Option<Seq<char>> {
        self.buffer_collection.buffers@[self.selected()].filter.pattern_view()
    }

    /// Raw texts of the lines that the selected tab's filter passes.
    pub open spec fn view(&self) -> Seq<Seq<char>> {
        filtered(self.pattern(), self.lines.contents())
    }

    pub open spec fn view_height(&self) -> nat {
        height_of(self.pattern(), self.lines.contents(), self.search.text@, self.search.mode)
    }

    pub open spec fn reverse_index(&self) -> nat {
        self.buffer_collection.buffers@[self.selected()].reverse_index as nat
    }

    /// The selected tab's position lies within `[0, max(0, view height - viewport height)]`.
    pub open spec fn scroll_in_range(&self) -> bool {
        self.reverse_index() <= max_scroll(self.view_height(), self.viewport_height as nat)
    }

    pub open spec fn wf(&self) -> bool {
        &&& self.lines.wf()
        &&& self.buffer_collection.wf()
        &&& self.search.wf()
        &&& self.search.matches@.map_values(|x: usize| x as int) == match_positions(
            self.search.text@,
            self.view(),
        )
    }

    /// A viewer with one tab per filter, keeping at most `max_lines_count` lines.
    pub fn new(filters: Vec<Filter>, max_lines_count: usize, viewport_height: usize) -> (r: Flow)
        requires
            filters@.len() > 0,
        ensures
            r.wf(),
            r.running,
            r.lines.contents().len() == 0,
            r.lines.capacity == max_lines_count,
            r.viewport_height == viewport_height,
            r.buffer_collection.selected == 0,
            r.buffer_collection.buffers@.len() == filters@.len(),
            forall|i: int|
                0 <= i < filters@.len() ==> (#[trigger] r.buffer_collection.buffers@[i]).filter
                    == filters@[i] && r.buffer_collection.buffers@[i].reverse_index == 0,
            r.reverse_index() == 0,
            r.scroll_in_range(),
            r.search.text@.len() == 0,
    {
        let mut flow = Flow {
            lines: LineCollection::new(max_lines_count),
            buffer_collection: BufferCollection::from_filters(filters),
            search: Search::new(),
            viewport_height,
            running: true,
        };
        flow.refresh();
        flow
    }

    /// Runs the search again on the selected tab's view and returns the
    /// number of lines it shows.
    fn refresh(&mut self) -> (h: usize)
        requires
            old(self).lines.wf(),
            old(self).buffer_collection.wf(),
        ensures
            final(self).wf(),
            h == final(self).view_height(),
            final(self).lines == old(self).lines,
            final(self).buffer_collection == old(self).buffer_collection,
            final(self).search.text == old(self).search.text,
            final(self).search.mode == old(self).search.mode,
            final(self).viewport_height == old(self).viewport_height,
            final(self).running == old(self).running,
            final(self).search.cursor == (if final(self).search.matches@.len() == 0 {
                None
            } else {
                Some(0usize)
            }),
    {
        let sel = self.buffer_collection.selected;
        let view = self.buffer_collection.buffers[sel].parse(&self.lines);
        self.search.run(&view);
        self.height_of_view(&view)
    }

    /// Whether a query narrows the view down to its matches.
    fn filtering_down(&self) -> (r: bool)
        ensures
            r == self.filters_down(),
    {
        let filter_down = match self.search.mode {
            SearchMode::FilterDown => true,
            SearchMode::Highlight => false,
        };
        filter_down && self.search.has_query()
    }

    /// Number of lines shown, given the selected tab's filtered view.
    fn height_of_view(&self, view: &Vec<&Line>) -> (h: usize)
        requires
            self.wf(),
            views_of(view@) == self.view(),
        ensures
            h == self.view_height(),
    {
        assert(self.search.matches@.map_values(|x: usize| x as int).len()
            == self.search.matches@.len());
        assert(views_of(view@).len() == view@.len());
        if self.filtering_down() {
            self.search.matches.len()
        } else {
            view.len()
        }
    }

    /// Position, among the lines shown, of the match at `c` in `matches`.
    pub open spec fn match_position(&self, c: usize) -> int {
        if self.filters_down() {
            c as int
        } else {
            self.search.matches@[c as int] as int
        }
    }

    /// What a search request does to the viewer `a`, giving `b` and `r`.
    pub open spec fn search_done(a: Flow, b: Flow, action: SearchAction, r: Outcome) -> bool {
        &&& b.lines == a.lines
        &&& b.running == a.running
        &&& b.viewport_height == a.viewport_height
        &&& b.buffer_collection.selected == a.buffer_collection.selected
        &&& kept_except(a.buffer_collection, b.buffer_collection, a.selected())
        &&& match action {
            SearchAction::ReadInput(t) => if t@ == a.search.text@ {
                &&& b.search == a.search
                &&& b.buffer_collection == a.buffer_collection
                &&& r == Outcome::Nothing
            } else {
                &&& b.search.text@ == t@
                &&& b.search.mode == a.search.mode
                &&& b.reverse_index() == min_nat(
                    a.reverse_index(),
                    max_scroll(b.view_height(), b.viewport_height as nat),
                )
                &&& r == Outcome::Redraw
            },
            SearchAction::FindNextMatch => {
                &&& b.search.text == a.search.text
                &&& b.search.mode == a.search.mode
                &&& b.search.matches == a.search.matches
                &&& b.search.cursor == next_cursor(a.search.cursor, a.search.matches@.len())
                &&& Flow::shown_match(a, b, r)
            },
            SearchAction::FindPreviousMatch => {
                &&& b.search.text == a.search.text
                &&& b.search.mode == a.search.mode
                &&& b.search.matches == a.search.matches
                &&& b.search.cursor == previous_cursor(a.search.cursor, a.search.matches@.len())
                &&& Flow::shown_match(a, b, r)
            },
            SearchAction::ToggleFilterMode => {
                &&& b.search.text == a.search.text
                &&& b.search.mode != a.search.mode
                &&& b.reverse_index() == min_nat(
                    a.reverse_index(),
                    max_scroll(b.view_height(), b.viewport_height as nat),
                )
                &&& r == Outcome::Redraw
            },
        }
    }

    /// After moving to a match: the selected tab scrolls so that the match is
    /// on the bottom row (as far as the range allows); without matches nothing
    /// changes.
    pub open spec fn shown_match(a: Flow, b: Flow, r: Outcome) -> bool {
        match b.search.cursor {
            Some(c) => {
                &&& b.reverse_index() == min_nat(
                    (b.view_height() - 1 - b.match_position(c)) as nat,
                    max_scroll(b.view_height(), b.viewport_height as nat),
                )
                &&& r == Outcome::Scroll(b.reverse_index() as usize)
            },
            None => {
                &&& b.buffer_collection == a.buffer_collection
                &&& r == Outcome::Nothing
            },
        }
    }

    /// What a batch of new lines does to the viewer `a`, giving `b`.
    pub open spec fn append_done(a: Flow, b: Flow, batch: Seq<String>) -> bool {
        let grown = a.lines.contents() + batch.map_values(|s: String| text_of(s));
        let grown_height = height_of(a.pattern(), grown, a.search.text@, a.search.mode);
        let shifted = clamp(
            a.reverse_index() + grown_height - a.view_height(),
            max_scroll(grown_height, a.viewport_height as nat) as int,
        );
        &&& b.lines.contents() == trim(a.lines.capacity as nat, grown)
        &&& b.lines.capacity == a.lines.capacity
        &&& b.running == a.running
        &&& b.viewport_height == a.viewport_height
        &&& b.buffer_collection.selected == a.buffer_collection.selected
        &&& kept_except(a.buffer_collection, b.buffer_collection, a.selected())
        &&& b.search.text == a.search.text
        &&& b.search.mode == a.search.mode
        &&& b.reverse_index() == (if a.reverse_index() == 0 {
            0
        } else {
            min_nat(shifted as nat, max_scroll(b.view_height(), b.viewport_height as nat))
        })
    }

    /// Handles one event and says what the rendering side must do.
    ///
    /// After every event the selected tab's position lies within
    /// `[0, max(0, view height - viewport height)]`, and every tab keeps its
    /// filter; only the selected tab's position may change. New lines keep a
    /// scrolled tab on the lines it showed: its position grows by the number
    /// of lines its view gained. A tab that follows the tail keeps following
    /// it. When the oldest lines are dropped, the position is brought back
    /// into range; it is not shifted to follow them.
    pub fn step(&mut self, event: Event) -> (r: Outcome)
        requires
            old(self).wf(),
            old(self).scroll_in_range(),
        ensures
            final(self).wf(),
            final(self).scroll_in_range(),
            kept_except(
                old(self).buffer_collection,
                final(self).buffer_collection,
                final(self).selected(),
            ),
            final(self).running == (old(self).running && !(event is Quit)),
            match event {
                Event::SelectMenuItem(d) => {
                    &&& final(self).lines == old(self).lines
                    &&& final(self).search.text == old(self).search.text
                    &&& final(self).search.mode == old(self).search.mode
                    &&& final(self).viewport_height == old(self).viewport_height
                    &&& final(self).buffer_collection.selected == (match d {
                        Direction::Left => if old(self).buffer_collection.selected > 0 {
                            (old(self).buffer_collection.selected - 1) as usize
                        } else {
                            0
                        },
                        Direction::Right => if old(self).buffer_collection.selected + 1 < old(
                            self,
                        ).buffer_collection.buffers@.len() {
                            (old(self).buffer_collection.selected + 1) as usize
                        } else {
                            old(self).buffer_collection.selected
                        },
                    })
                    &&& final(self).reverse_index() == min_nat(
                        old(self).buffer_collection.buffers@[final(self).selected()].reverse_index as nat,
                        max_scroll(final(self).view_height(), final(self).viewport_height as nat),
                    )
                    &&& r == Outcome::Redraw
                },
                Event::ScrollContents(offset) => {
                    &&& final(self).lines == old(self).lines
                    &&& final(self).search == old(self).search
                    &&& final(self).viewport_height == old(self).viewport_height
                    &&& final(self).buffer_collection.selected == old(self).buffer_collection.selected
                    &&& r == Outcome::Scroll(final(self).reverse_index() as usize)
                    &&& match offset {
                        Offset::Top => final(self).reverse_index() == max_scroll(
                            old(self).view_height(),
                            old(self).viewport_height as nat,
                        ),
                        Offset::Bottom => final(self).reverse_index() == 0,
                        _ => final(self).reverse_index() == clamp(
                            old(self).reverse_index() + offset_delta(
                                offset,
                                old(self).viewport_height as nat,
                            ),
                            max_scroll(old(self).view_height(), old(self).viewport_height as nat) as int,
                        ),
                    }
                },
                Event::Search(action) => Flow::search_done(*old(self), *final(self), action, r),
                Event::Resize(h) => {
                    &&& final(self).lines == old(self).lines
                    &&& final(self).search.text == old(self).search.text
                    &&& final(self).search.mode == old(self).search.mode
                    &&& final(self).buffer_collection.selected == old(self).buffer_collection.selected
                    &&& final(self).viewport_height == h
                    &&& final(self).reverse_index() == 0
                    &&& r == Outcome::Redraw
                },
                Event::Quit => {
                    &&& !final(self).running
                    &&& final(self).lines == old(self).lines
                    &&& final(self).buffer_collection == old(self).buffer_collection
                    &&& final(self).search == old(self).search
                    &&& final(self).viewport_height == old(self).viewport_height
                    &&& r == Outcome::Quit
                },
                Event::Idle(batch) => if batch@.len() == 0 {
                    &&& *final(self) == *old(self)
                    &&& r == Outcome::Nothing
                } else {
                    &&& Flow::append_done(*old(self), *final(self), batch@)
                    &&& r == Outcome::Redraw
                },
            },
    {
        match event {
            Event::SelectMenuItem(d) => {
                match d {
                    Direction::Left => self.buffer_collection.select_previous(),
                    Direction::Right => self.buffer_collection.select_next(),
                }
                self.settle();
                Outcome::Redraw
            },
            Event::ScrollContents(offset) => {
                let h = self.current_height();
                let ri = self.buffer_collection.scroll_selected(offset, self.viewport_height, h);
                Outcome::Scroll(ri)
            },
            Event::Search(action) => self.handle_search(action),
            Event::Resize(h) => {
                self.viewport_height = h;
                self.buffer_collection.limit_selected(0);
                self.settle();
                Outcome::Redraw
            },
            Event::Quit => {
                self.running = false;
                Outcome::Quit
            },
            Event::Idle(batch) => {
                if batch.len() == 0 {
                    return Outcome::Nothing;
                }
                self.append_incoming_lines(batch);
                Outcome::Redraw
            },
        }
    }

    /// Handles a request of the search field.
    pub fn handle_search(&mut self, action: SearchAction) -> (r: Outcome)
        requires
            old(self).wf(),
            old(self).scroll_in_range(),
        ensures
            final(self).wf(),
            final(self).scroll_in_range(),
            Flow::search_done(*old(self), *final(self), action, r),
    {
        match action {
            SearchAction::ReadInput(t) => {
                if self.search.read_input(t) == QueryState::Changed {
                    self.settle();
                    Outcome::Redraw
                } else {
                    Outcome::Nothing
                }
            },
            SearchAction::FindNextMatch => {
                self.search.find_next_match();
                self.show_current_match()
            },
            SearchAction::FindPreviousMatch => {
                self.search.find_previous_match();
                self.show_current_match()
            },
            SearchAction::ToggleFilterMode => {
                self.search.toggle_filter_mode();
                self.settle();
                Outcome::Redraw
            },
        }
    }

    /// Scrolls the selected tab so that the current match is on the bottom
    /// row, as far as the range allows.
    fn show_current_match(&mut self) -> (r: Outcome)
        requires
            old(self).wf(),
            old(self).scroll_in_range(),
        ensures
            final(self).wf(),
            final(self).scroll_in_range(),
            final(self).lines == old(self).lines,
            final(self).search == old(self).search,
            final(self).running == old(self).running,
            final(self).viewport_height == old(self).viewport_height,
            final(self).buffer_collection.selected == old(self).buffer_collection.selected,
            kept_except(old(self).buffer_collection, final(self).buffer_collection, old(self).selected()),
            Flow::shown_match(*old(self), *final(self), r),
    {
        match self.search.cursor {
            None => Outcome::Nothing,
            Some(c) => {
                let h = self.current_height();
                let pos = if self.filtering_down() {
                    c
                } else {
                    self.search.matches[c]
                };
                proof {
                    let mp = match_positions(self.search.text@, self.view());
                    lemma_match_positions_in_range(self.search.text@, self.view());
                    assert(self.search.matches@.map_values(|x: usize| x as int)[c as int] == mp[c as int]);
                    assert(self.search.matches@.map_values(|x: usize| x as int).len()
                        == self.search.matches@.len());
                }
                assert(pos < h);
                let max_value: usize = if h > self.viewport_height {
                    h - self.viewport_height
                } else {
                    0
                };
                let target = h - 1 - pos;
                let ghost before = *self;
                self.buffer_collection.limit_selected(0);
                self.buffer_collection.adjust_selected(target as i128, max_value);
                assert(self.view() == before.view());
                let ri = self.buffer_collection.buffers[self.buffer_collection.selected].reverse_index;
                Outcome::Scroll(ri)
            },
        }
    }

    /// Adds drained lines, keeps a scrolled tab on the lines it showed, then
    /// drops the oldest lines beyond the capacity.
    pub fn append_incoming_lines(&mut self, pending_lines: Vec<String>)
        requires
            old(self).wf(),
        ensures
            final(self).wf(),
            final(self).scroll_in_range(),
            Flow::append_done(*old(self), *final(self), pending_lines@),
    {
        let initial_height = self.current_height();
        let scrolled = self.buffer_collection.selected_item().is_scrolled();
        self.lines.extend(pending_lines);
        let grown_height = self.refresh();
        if scrolled {
            let max_value: usize = if grown_height > self.viewport_height {
                grown_height - self.viewport_height
            } else {
                0
            };
            let offset: i128 = grown_height as i128 - initial_height as i128;
            self.buffer_collection.adjust_selected(offset, max_value);
        }
        self.lines.clear_excess();
        self.settle();
    }

    /// Number of lines that the selected tab shows.
    fn current_height(&self) -> (h: usize)
        requires
            self.wf(),
        ensures
            h == self.view_height(),
    {
        let sel = self.buffer_collection.selected;
        let view = self.buffer_collection.buffers[sel].parse(&self.lines);
        self.height_of_view(&view)
    }

    /// Whether a query narrows the view down to its matches.
    pub open spec fn filters_down(&self) -> bool {
        self.search.mode == SearchMode::FilterDown && self.search.text@.len() > 0
    }

    /// Raw texts of the lines that the selected tab shows.
    pub open spec fn shown(&self) -> Seq<Seq<char>> {
        if self.filters_down() {
            self.search.matches@.map_values(|k: usize| self.view()[k as int])
        } else {
            self.view()
        }
    }

    /// The lines that the selected tab shows, oldest first: those its filter
    /// passes, or, when a query filters them down, the matching ones.
    pub fn visible_lines(&self) -> (r: Vec<&Line>)
        requires
            self.wf(),
        ensures
            views_of(r@) == self.shown(),
            r@.len() == self.view_height(),
    {
        let sel = self.buffer_collection.selected;
        let view = self.buffer_collection.buffers[sel].parse(&self.lines);
        proof {
            let mp = match_positions(self.search.text@, self.view());
            lemma_match_positions_in_range(self.search.text@, self.view());
            assert(views_of(view@).len() == view@.len());
            assert forall|m: int| 0 <= m < self.search.matches@.len() implies
                #[trigger] self.search.matches@[m] < view@.len() by {
                assert(self.search.matches@.map_values(|x: usize| x as int)[m] == mp[m]);
            }
        }
        if !self.filtering_down() {
            return view;
        }
        let mut out: Vec<&Line> = Vec::new();
        let n = self.search.matches.len();
        let mut k: usize = 0;
        while k < n
            invariant
                self.wf(),
                n == self.search.matches@.len(),
                k <= n,
                views_of(view@) == self.view(),
                forall|m: int| 0 <= m < n ==> #[trigger] self.search.matches@[m] < view@.len(),
                views_of(out@) == self.search.matches@.subrange(0, k as int).map_values(
                    |i: usize| self.view()[i as int],
                ),
            decreases n - k,
        {
            let i = self.search.matches[k];
            proof {
                let mp = match_positions(self.search.text@, self.view());
                assert(self.search.matches@.map_values(|x: usize| x as int)[k as int] == mp[k as int]);
            }
            let ghost before = out@;
            out.push(view[i]);
            assert(views_of(out@) =~= views_of(before).push(views_of(view@)[i as int]));
            assert(self.search.matches@.subrange(0, k + 1) =~= self.search.matches@.subrange(0, k as int).push(i));
            assert(views_of(out@) =~= self.search.matches@.subrange(0, k + 1).map_values(
                |i: usize| self.view()[i as int],
            ));
            k = k + 1;
        }
        assert(self.search.matches@.subrange(0, n as int) =~= self.search.matches@);
        assert(match_positions(self.search.text@, self.view()).len() == n) by {
            assert(self.search.matches@.map_values(|x: usize| x as int).len() == n);
        }
        out
    }

    /// Whether the viewer goes on: false once a quit event came.
    pub fn is_running(&self) -> (r: bool)
        ensures
            r == self.running,
    {
        self.running
    }

    /// Refreshes the view and brings the selected tab's position into range.
    fn settle(&mut self)
        requires
            old(self).lines.wf(),
            old(self).buffer_collection.wf(),
        ensures
            final(self).wf(),
            final(self).lines == old(self).lines,
            final(self).buffer_collection.selected == old(self).buffer_collection.selected,
            final(self).buffer_collection.buffers@.len() == old(self).buffer_collection.buffers@.len(),
            final(self).pattern() == old(self).pattern(),
            kept_except(
                old(self).buffer_collection,
                final(self).buffer_collection,
                old(self).selected(),
            ),
            final(self).search.text == old(self).search.text,
            final(self).search.mode == old(self).search.mode,
            final(self).viewport_height == old(self).viewport_height,
            final(self).running == old(self).running,
            final(self).reverse_index() == min_nat(
                old(self).reverse_index(),
                max_scroll(final(self).view_height(), final(self).viewport_height as nat),
            ),
            final(self).scroll_in_range(),
    {
        let h = self.refresh();
        let max_value: usize = if h > self.viewport_height {
            h - self.viewport_height
        } else {
            0
        };
        self.buffer_collection.limit_selected(max_value);
    }
}

} // verus!
