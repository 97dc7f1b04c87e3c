use vstd::prelude::*;

verus! {

/// `p` occurs in `t` as a contiguous run (case-sensitive).
pub open spec fn contains_text(t: Seq<char>, p: Seq<char>) -> bool {
    exists|i: int| 0 <= i && i + p.len() <= t.len() && #[trigger] t.subrange(i, i + p.len()) == p
}

/// Whether `p` occurs at position `i` of `t`.
fn occurs_at(t: &Vec<char>, p: &Vec<char>, i: usize) -> (r: bool)
    requires
        i + p@.len() <= t@.len(),
    ensures
        r == (t@.subrange(i as int, i + p@.len()) == p@),
{
    let tl = t.len();
    let mut k: usize = 0;
    while k < p.len()
        invariant
            tl == t@.len(),
            i + p@.len() <= t@.len(),
            k <= p@.len(),
            forall|m: int| 0 <= m < k ==> t@[i + m] == p@[m],
        decreases p@.len() - k,
    {
        assert(i + k < t@.len());
        if t[i + k] != p[k] {
            assert(t@.subrange(i as int, i + p@.len())[k as int] != p@[k as int]);
            return false;
        }
        k = k + 1;
    }
    assert(t@.subrange(i as int, i + p@.len()) =~= p@);
    true
}

/// Case-sensitive substring test.
pub fn find_text(t: &Vec<char>, p: &Vec<char>) -> (r: bool)
    ensures
        r == contains_text(t@, p@),
{
    if p.len() > t.len() {
        return false;
    }
    if p.len() == 0 {
        assert(t@.subrange(0int, 0int + p@.len()) =~= p@);
        assert(contains_text(t@, p@)) by {
            assert(t@.subrange(0int, 0int + p@.len()) == p@);
        }
        return true;
    }
    let tl = t.len();
    let last = tl - p.len();
    let mut i: usize = 0;
    while i <= last
        invariant
            tl == t@.len(),
            last + p@.len() == t@.len(),
            p@.len() > 0,
            i <= last + 1,
            forall|m: int| 0 <= m < i ==> #[trigger] t@.subrange(m, m + p@.len()) != p@,
        decreases last + 1 - i,
    {
        if occurs_at(t, p, i) {
            return true;
        }
        i = i + 1;
    }
    false
}

} // verus!
