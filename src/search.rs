use vstd::prelude::*;
use crate::ansi::{chars_of, strip};
use crate::lines::{content_of, views_of, Line};
use crate::text::{contains_text, find_text};

verus! {

/// How a search shows its matches.
#[derive(Clone, Copy, Debug, PartialEq, Eq, Structural)]
pub enum SearchMode {
    /// All lines stay in view; the matching ones are marked.
    Highlight,
    /// Only the matching lines stay in view.
    FilterDown,
}

/// Whether new input changed the query text.
#[derive(Clone, Copy, Debug, PartialEq, Eq, Structural)]
pub enum QueryState {
    Changed,
    Unchanged,
}

/// A line matches a query when the query is not empty and occurs in the
/// line's text without escape sequences.
pub open spec fn line_matches(query: Seq<char>, line: Seq<char>) -> bool {
    query.len() > 0 && contains_text(strip(line), query)
}

/// Positions of the matching lines, in order.
pub open spec fn match_positions(query: Seq<char>, lines: Seq<Seq<char>>) -> Seq<int>
    decreases lines.len(),
{
    if lines.len() == 0 {
        Seq::empty()
    } else {
        let prev = match_positions(query, lines.drop_last());
        if line_matches(query, lines.last()) {
            prev.push(lines.len() - 1)
        } else {
            prev
        }
    }
}

/// Every position that `match_positions` gives lies within the lines.
pub proof fn lemma_match_positions_in_range(query: Seq<char>, lines: Seq<Seq<char>>)
    ensures
        forall|k: int|
            0 <= k < match_positions(query, lines).len() ==> 0 <= #[trigger] match_positions(
                query,
                lines,
            )[k] < lines.len(),
    decreases lines.len(),
{
    if lines.len() > 0 {
        let prev = lines.drop_last();
        lemma_match_positions_in_range(query, prev);
        let pp = match_positions(query, prev);
        assert forall|k: int| 0 <= k < pp.len() implies 0 <= #[trigger] pp[k] < lines.len() by {
            assert(0 <= pp[k] < prev.len());
        }
    }
}

/// The match that `find_next_match` moves to from `cursor` among `n`.
pub open spec fn next_cursor(cursor: Option<usize>, n: nat) -> Option<usize> {
    match cursor {
        Some(c) => Some(((c + 1) % (n as int)) as usize),
        None => None,
    }
}

/// The match that `find_previous_match` moves to from `cursor` among `n`.
pub open spec fn previous_cursor(cursor: Option<usize>, n: nat) -> Option<usize> {
    match cursor {
        Some(c) => Some(((c + n - 1) % (n as int)) as usize),
        None => None,
    }
}

/// The cursor after `k` moves to the next match.
pub open spec fn next_cursor_times(cursor: Option<usize>, n: nat, k: nat) -> Option<usize>
    decreases k,
{
    if k == 0 {
        cursor
    } else {
        next_cursor(next_cursor_times(cursor, n, (k - 1) as nat), n)
    }
}

/// The search: its query, its mode, the positions of the matching lines of
/// the view it last ran on, and the current match.
pub struct Search {
    pub text: String,
    pub mode: SearchMode,
    pub matches: Vec<usize>,
    pub cursor: Option<usize>,
}

impl Search {
    pub open spec fn wf(&self) -> bool {
        match self.cursor {
            Some(c) => c < self.matches@.len(),
            None => self.matches@.len() == 0,
        }
    }

    pub fn new() -> (r: Search)
        ensures
            r.wf(),
            r.text@.len() == 0,
            r.mode == SearchMode::Highlight,
            r.matches@.len() == 0,
            r.cursor is None,
    {
        Search { text: String::new(), mode: SearchMode::Highlight, matches: Vec::new(), cursor: None }
    }

    /// Takes the text of the input field; says whether the query changed.
    pub fn read_input(&mut self, text: String) -> (r: QueryState)
        ensures
            final(self).text@ == text@,
            final(self).mode == old(self).mode,
            final(self).matches == old(self).matches,
            final(self).cursor == old(self).cursor,
            text@ == old(self).text@ ==> *final(self) == *old(self),
            r == (if text@ == old(self).text@ {
                QueryState::Unchanged
            } else {
                QueryState::Changed
            }),
    {
        if text == self.text {
            QueryState::Unchanged
        } else {
            self.text = text;
            QueryState::Changed
        }
    }

    /// Whether there is a query to look for.
    pub fn has_query(&self) -> (r: bool)
        ensures
            r == (self.text@.len() > 0),
    {
        let q = chars_of(self.text.as_str());
        q.len() > 0
    }

    /// Swaps highlighting and filtering down.
    pub fn toggle_filter_mode(&mut self)
        ensures
            final(self).mode == (if old(self).mode == SearchMode::Highlight {
                SearchMode::FilterDown
            } else {
                SearchMode::Highlight
            }),
            final(self).text == old(self).text,
            final(self).matches == old(self).matches,
            final(self).cursor == old(self).cursor,
    {
        self.mode = match self.mode {
            SearchMode::Highlight => SearchMode::FilterDown,
            SearchMode::FilterDown => SearchMode::Highlight,
        };
    }

    /// Finds the matching lines of `view` and puts the cursor on the first.
    pub fn run(&mut self, view: &Vec<&Line>)
        requires
            forall|i: int| 0 <= i < view@.len() ==> (#[trigger] view@[i]).wf(),
        ensures
            final(self).wf(),
            final(self).text == old(self).text,
            final(self).mode == old(self).mode,
            final(self).matches@.map_values(|x: usize| x as int) == match_positions(
                old(self).text@,
                views_of(view@),
            ),
            final(self).cursor == (if final(self).matches@.len() == 0 {
                None
            } else {
                Some(0usize)
            }),
    {
        let q = chars_of(self.text.as_str());
        let mut found: Vec<usize> = Vec::new();
        let n = view.len();
        let mut k: usize = 0;
        while k < n
            invariant
                forall|i: int| 0 <= i < view@.len() ==> (#[trigger] view@[i]).wf(),
                n == view@.len(),
                k <= n,
                q@ == self.text@,
                found@.map_values(|x: usize| x as int) == match_positions(
                    q@,
                    views_of(view@).subrange(0, k as int),
                ),
            decreases n - k,
        {
            let line = view[k];
            assert(view@[k as int].wf());
            let ghost before = found@;
            let ghost prefix = views_of(view@).subrange(0, k + 1);
            assert(prefix.drop_last() =~= views_of(view@).subrange(0, k as int));
            assert(prefix.last() == content_of(*line));
            let hit = if q.len() == 0 {
                false
            } else {
                let t = chars_of(line.content_without_ansi.as_str());
                find_text(&t, &q)
            };
            if hit {
                found.push(k);
                assert(found@.map_values(|x: usize| x as int) =~= before.map_values(
                    |x: usize| x as int,
                ).push(k as int));
            }
            k = k + 1;
        }
        assert(views_of(view@).subrange(0, n as int) =~= views_of(view@));
        self.cursor = if found.len() == 0 {
            None
        } else {
            Some(0)
        };
        self.matches = found;
    }

    /// Moves to the next match, from the last back to the first; does
    /// nothing without matches.
    pub fn find_next_match(&mut self)
        requires
            old(self).wf(),
        ensures
            final(self).wf(),
            final(self).cursor == next_cursor(old(self).cursor, old(self).matches@.len()),
            final(self).matches == old(self).matches,
            final(self).text == old(self).text,
            final(self).mode == old(self).mode,
    {
        match self.cursor {
            Some(c) => {
                let n = self.matches.len();
                self.cursor = Some(if c + 1 == n { 0 } else { c + 1 });
                proof {
                    if c + 1 < n {
                        vstd::arithmetic::div_mod::lemma_small_mod((c + 1) as nat, n as nat);
                    } else {
                        vstd::arithmetic::div_mod::lemma_mod_self_0(n as int);
                    }
                }
            },
            None => {},
        }
    }

    /// Moves to the previous match, from the first back to the last; does
    /// nothing without matches.
    pub fn find_previous_match(&mut self)
        requires
            old(self).wf(),
        ensures
            final(self).wf(),
            final(self).cursor == previous_cursor(old(self).cursor, old(self).matches@.len()),
            final(self).matches == old(self).matches,
            final(self).text == old(self).text,
            final(self).mode == old(self).mode,
    {
        match self.cursor {
            Some(c) => {
                let n = self.matches.len();
                self.cursor = Some(if c == 0 { n - 1 } else { c - 1 });
                proof {
                    if c > 0 {
                        vstd::arithmetic::div_mod::lemma_mod_add_multiples_vanish((c - 1) as int, n as int);
                        vstd::arithmetic::div_mod::lemma_small_mod((c - 1) as nat, n as nat);
                        assert(c + n - 1 == n + (c - 1));
                    } else {
                        vstd::arithmetic::div_mod::lemma_small_mod((n - 1) as nat, n as nat);
                    }
                }
            },
            None => {},
        }
    }

    /// Position in the view of the current match.
    pub fn current_match(&self) -> (r: Option<usize>)
        requires
            self.wf(),
        ensures
            r == (match self.cursor {
                Some(c) => Some(self.matches@[c as int]),
                None => None::<usize>,
            }),
    {
        match self.cursor {
            Some(c) => Some(self.matches[c]),
            None => None,
        }
    }
}

proof fn lemma_next_cursor_times(c: usize, n: nat, k: nat)
    requires
        c < n <= usize::MAX,
    ensures
        next_cursor_times(Some(c), n, k) == Some(((c + k) % (n as int)) as usize),
    decreases k,
{
    if k > 0 {
        lemma_next_cursor_times(c, n, (k - 1) as nat);
        let x = c + k - 1;
        let m = n as int;
        vstd::arithmetic::div_mod::lemma_fundamental_div_mod(x, m);
        vstd::arithmetic::div_mod::lemma_mod_multiples_vanish(x / m, x % m + 1, m);
        assert(x + 1 == m * (x / m) + (x % m + 1));
        vstd::arithmetic::div_mod::lemma_mod_pos_bound(x, m);
        vstd::arithmetic::div_mod::lemma_mod_pos_bound(x + 1, m);
        let y = x % m;
        assert((y as usize) as int == y);
        assert((m * (x / m) + (y + 1)) % m == (y + 1) % m);
        assert((x + 1) % m == (y + 1) % m);
        assert(next_cursor_times(Some(c), n, k) == next_cursor(Some(y as usize), n));
        assert(next_cursor(Some(y as usize), n) == Some((((y as usize) + 1) % m) as usize));
        assert(((y as usize) + 1) % m == (c + k) % m);
    } else {
        vstd::arithmetic::div_mod::lemma_small_mod(c as nat, n);
    }
}

/// Moving to the next match as many times as there are matches comes back
/// to the match where it started, from every match.
pub proof fn lemma_next_match_cycles(cursor: Option<usize>, n: nat)
    requires
        n <= usize::MAX,
        cursor matches Some(c) ==> c < n,
    ensures
        next_cursor_times(cursor, n, n) == cursor,
{
    match cursor {
        Some(c) => {
            lemma_next_cursor_times(c, n, n);
            vstd::arithmetic::div_mod::lemma_mod_add_multiples_vanish(c as int, n as int);
            vstd::arithmetic::div_mod::lemma_small_mod(c as nat, n);
            assert(c + n == n + c);
        },
        None => {
            lemma_none_stays(n, n);
        },
    }
}

proof fn lemma_none_stays(n: nat, k: nat)
    ensures
        next_cursor_times(None, n, k) == None::<usize>,
    decreases k,
{
    if k > 0 {
        lemma_none_stays(n, (k - 1) as nat);
    }
}

} // verus!
