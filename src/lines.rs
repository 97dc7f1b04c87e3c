use vstd::prelude::*;
use crate::ansi::{
    break_to_ncurses_components, components, has_ansi_escape_sequence, pieces_of, strip,
    strip_ansi, CursesComponent, ESC,
};

verus! {

/// One ingested line: its raw text, the text without escape sequences, and,
/// where the text holds an escape character, its parsed components.
pub struct Line {
    pub content: String,
    pub content_without_ansi: String,
    pub components: Option<Vec<CursesComponent>>,
}

impl Line {
    pub open spec fn wf(&self) -> bool {
        &&& self.content_without_ansi@ == strip(self.content@)
        &&& match self.components {
            Some(c) => self.content@.contains(ESC) && pieces_of(c@) == components(self.content@),
            None => !self.content@.contains(ESC),
        }
    }

    pub fn new(content: String) -> (r: Line)
        ensures
            r.wf(),
            r.content@ == content@,
    {
        let content_without_ansi = strip_ansi(content.as_str());
        let components = if has_ansi_escape_sequence(content.as_str()) {
            Some(break_to_ncurses_components(content.as_str()))
        } else {
            None
        };
        Line { content, content_without_ansi, components }
    }
}

/// `s` cut down to its last `capacity` entries.
pub open spec fn trim<T>(capacity: nat, s: Seq<T>) -> Seq<T> {
    if s.len() > capacity {
        s.subrange(s.len() - capacity, s.len() as int)
    } else {
        s
    }
}

/// What the store holds after each batch of `batches` was appended and the
/// excess cleared, starting empty.
pub open spec fn retained<T>(capacity: nat, batches: Seq<Seq<T>>) -> Seq<T>
    decreases batches.len(),
{
    if batches.len() == 0 {
        Seq::empty()
    } else {
        trim(capacity, retained(capacity, batches.drop_last()) + batches.last())
    }
}

/// The store of ingested lines, in order of arrival, holding at most
/// `capacity` of them once the excess is cleared.
pub struct LineCollection {
    pub entries: Vec<Line>,
    pub capacity: usize,
}

pub open spec fn content_of(l: Line) -> Seq<char> {
    l.content@
}

/// The raw texts of a sequence of lines.
pub open spec fn views_of(v: Seq<&Line>) -> Seq<Seq<char>> {
    v.map_values(|l: &Line| content_of(*l))
}

pub open spec fn text_of(s: String) -> Seq<char> {
    s@
}

impl LineCollection {
    /// The raw texts of the stored lines, oldest first.
    pub open spec fn contents(&self) -> Seq<Seq<char>> {
        self.entries@.map_values(|l: Line| content_of(l))
    }

    pub open spec fn wf(&self) -> bool {
        forall|i: int| 0 <= i < self.entries@.len() ==> #[trigger] self.entries@[i].wf()
    }

    pub fn new(capacity: usize) -> (r: LineCollection)
        ensures
            r.wf(),
            r.contents().len() == 0,
            r.capacity == capacity,
    {
        LineCollection { entries: Vec::new(), capacity }
    }

    pub fn len(&self) -> (r: usize)
        ensures
            r == self.contents().len(),
    {
        self.entries.len()
    }

    pub fn get(&self, i: usize) -> (r: &Line)
        requires
            i < self.contents().len(),
        ensures
            *r == self.entries@[i as int],
    {
        &self.entries[i]
    }

    /// Appends the lines in order. The excess is left for `clear_excess`.
    pub fn extend(&mut self, new_lines: Vec<String>)
        requires
            old(self).wf(),
        ensures
            final(self).wf(),
            final(self).capacity == old(self).capacity,
            final(self).contents() == old(self).contents() + new_lines@.map_values(
                |s: String| text_of(s),
            ),
    {
        let ghost start = self.contents();
        let n = new_lines.len();
        let mut k: usize = 0;
        while k < n
            invariant
                self.wf(),
                self.capacity == old(self).capacity,
                k <= n,
                n == new_lines@.len(),
                self.contents() == start + new_lines@.subrange(0, k as int).map_values(
                    |s: String| text_of(s),
                ),
            decreases n - k,
        {
            let ghost before = self.contents();
            let line = Line::new(new_lines[k].clone());
            assert(content_of(line) == text_of(new_lines@[k as int]));
            self.entries.push(line);
            assert(self.contents() =~= before.push(content_of(line)));
            assert(new_lines@.subrange(0, k + 1) =~= new_lines@.subrange(0, k as int).push(new_lines@[k as int]));
            assert(self.contents() =~= start + new_lines@.subrange(0, k + 1).map_values(
                |s: String| text_of(s),
            ));
            k = k + 1;
        }
        assert(new_lines@.subrange(0, n as int) =~= new_lines@);
    }

    /// Drops the oldest lines until at most `capacity` remain.
    pub fn clear_excess(&mut self)
        requires
            old(self).wf(),
        ensures
            final(self).wf(),
            final(self).capacity == old(self).capacity,
            final(self).contents() == trim(old(self).capacity as nat, old(self).contents()),
            final(self).contents().len() <= final(self).capacity,
    {
        let n = self.entries.len();
        if n > self.capacity {
            let kept = self.entries.split_off(n - self.capacity);
            self.entries = kept;
            assert(self.contents() =~= trim(self.capacity as nat, old(self).contents()));
        }
    }
}

/// Whatever the batches and the capacity, the store holds after each
/// clearing at most `capacity` lines, and exactly the most recent
/// `min(total appended, capacity)` of all lines appended, in their order.
pub proof fn lemma_retains_most_recent<T>(capacity: nat, batches: Seq<Seq<T>>)
    ensures
        retained(capacity, batches).len() <= capacity,
        retained(capacity, batches) == trim(capacity, batches.flatten_alt()),
    decreases batches.len(),
{
    if batches.len() > 0 {
        let prev = batches.drop_last();
        lemma_retains_most_recent(capacity, prev);
        let all = prev.flatten_alt();
        let last = batches.last();
        assert(batches.flatten_alt() == all + last);
        let r = retained(capacity, prev);
        assert(trim(capacity, r + last) =~= trim(capacity, all + last));
    }
}

} // verus!
