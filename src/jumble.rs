//! The jumbled rotation of modes: each draw takes a random entry from the
//! first half of the sequence and moves it to the end.
use crate::random::{random_below, shuffle};
use vstd::prelude::*;

verus! {

/// The sequence after drawing the entry at `i`: it leaves its place and goes
/// to the end.
pub open spec fn jumble_step<T>(s: Seq<T>, i: int) -> Seq<T> {
    s.remove(i).push(s[i])
}

/// The sequence after the draws at positions `draws[0..k]`, one after the
/// other.
pub open spec fn jumble_after<T>(s: Seq<T>, draws: Seq<int>, k: nat) -> Seq<T>
    decreases k,
{
    if k == 0 {
        s
    } else {
        jumble_step(jumble_after(s, draws, (k - 1) as nat), draws[k - 1])
    }
}

/// The entry that draw number `k` takes.
pub open spec fn jumble_drawn<T>(s: Seq<T>, draws: Seq<int>, k: nat) -> T {
    jumble_after(s, draws, k)[draws[k as int]]
}

/// Holds entries to hand out in a jumbled cycle.
pub struct Jumbler<T> {
    content: Vec<T>,
}

impl<T: Copy> View for Jumbler<T> {
    type V = Seq<T>;

    closed spec fn view(&self) -> Seq<T> {
        self.content@
    }
}

impl<T: Copy> Jumbler<T> {
    /// A jumbler over `content`, shuffled once.
    pub fn new(content: Vec<T>) -> (r: Jumbler<T>)
        ensures
            r@.to_multiset() == content@.to_multiset(),
    {
        let mut content = content;
        shuffle(&mut content);
        Jumbler { content }
    }

    /// A jumbler over `content` in the given order, not shuffled.
    pub fn from_order(content: Vec<T>) -> (r: Jumbler<T>)
        ensures
            r@ == content@,
    {
        Jumbler { content }
    }

    /// The number of entries.
    pub fn len(&self) -> (r: usize)
        ensures
            r == self@.len(),
    {
        self.content.len()
    }

    /// Draws the entry at `index`, which must lie in the first half, and
    /// moves it to the end.
    pub fn next_at(&mut self, index: usize) -> (r: T)
        requires
            index < old(self)@.len() / 2,
        ensures
            r == old(self)@[index as int],
            final(self)@ == jumble_step(old(self)@, index as int),
    {
        let entry = self.content.remove(index);
        self.content.push(entry);
        entry
    }

    /// Draws an entry at random from the first half and moves it to the end.
    /// There is nothing to draw from fewer than two entries.
    pub fn next(&mut self) -> (r: Option<T>)
        ensures
            old(self)@.len() < 2 ==> r.is_none() && final(self)@ == old(self)@,
            old(self)@.len() >= 2 ==> exists|i: int|
                0 <= i < old(self)@.len() / 2 && r == Some(old(self)@[i]) && final(self)@
                    == jumble_step(old(self)@, i),
    {
        let half = self.content.len() / 2;
        if half == 0 {
            None
        } else {
            let index = random_below(half);
            let entry = self.next_at(index);
            Some(entry)
        }
    }
}

proof fn lemma_step_facts<T>(s: Seq<T>, i: int)
    requires
        0 <= i < s.len(),
    ensures
        jumble_step(s, i).len() == s.len(),
        jumble_step(s, i)[s.len() - 1] == s[i],
        forall|j: int| 0 <= j < i ==> #[trigger] jumble_step(s, i)[j] == s[j],
        forall|j: int| i <= j < s.len() - 1 ==> #[trigger] jumble_step(s, i)[j] == s[j + 1],
        s.no_duplicates() ==> jumble_step(s, i).no_duplicates(),
{
    let t = jumble_step(s, i);
    if s.no_duplicates() {
        assert forall|a: int, b: int| 0 <= a < t.len() && 0 <= b < t.len() && a != b implies t[a]
            != t[b] by {
            let pa = if a == s.len() - 1 {
                i
            } else if a < i {
                a
            } else {
                a + 1
            };
            let pb = if b == s.len() - 1 {
                i
            } else if b < i {
                b
            } else {
                b + 1
            };
            assert(t[a] == s[pa]);
            assert(t[b] == s[pb]);
        }
    }
}

proof fn lemma_after_facts<T>(s: Seq<T>, draws: Seq<int>, k: nat)
    requires
        s.len() >= 2,
        s.no_duplicates(),
        k <= draws.len(),
        forall|j: int| 0 <= j < draws.len() ==> 0 <= #[trigger] draws[j] < s.len() / 2,
    ensures
        jumble_after(s, draws, k).len() == s.len(),
        jumble_after(s, draws, k).no_duplicates(),
    decreases k,
{
    if k > 0 {
        lemma_after_facts(s, draws, (k - 1) as nat);
        lemma_step_facts(jumble_after(s, draws, (k - 1) as nat), draws[k - 1]);
    }
}

/// After draw `k`, its entry sits `m` places before the end for the next
/// `m` draws, as long as `m` is below half the length.
proof fn lemma_drawn_sinks<T>(s: Seq<T>, draws: Seq<int>, k: nat, m: nat)
    requires
        s.len() >= 2,
        s.no_duplicates(),
        k + 1 + m <= draws.len(),
        m < s.len() / 2,
        forall|j: int| 0 <= j < draws.len() ==> 0 <= #[trigger] draws[j] < s.len() / 2,
    ensures
        jumble_after(s, draws, k + 1 + m)[s.len() - 1 - m] == jumble_drawn(s, draws, k),
    decreases m,
{
    lemma_after_facts(s, draws, k);
    lemma_step_facts(jumble_after(s, draws, k), draws[k as int]);
    if m > 0 {
        lemma_drawn_sinks(s, draws, k, (m - 1) as nat);
        let prev = jumble_after(s, draws, (k + m) as nat);
        lemma_after_facts(s, draws, (k + m) as nat);
        lemma_step_facts(prev, draws[(k + m) as int]);
        assert(jumble_after(s, draws, k + 1 + m) == jumble_step(prev, draws[(k + m) as int]));
        assert(prev[s.len() - 1 - (m - 1)] == jumble_drawn(s, draws, k));
    }
}

/// No entry of a sequence without repeats is drawn twice within any
/// `len / 2` consecutive draws, whichever first-half positions are drawn.
pub proof fn lemma_jumble_no_repeat<T>(s: Seq<T>, draws: Seq<int>, k1: nat, k2: nat)
    requires
        s.len() >= 2,
        s.no_duplicates(),
        forall|j: int| 0 <= j < draws.len() ==> 0 <= #[trigger] draws[j] < s.len() / 2,
        k1 < k2 < draws.len(),
        k2 - k1 <= s.len() / 2,
    ensures
        jumble_drawn(s, draws, k1) != jumble_drawn(s, draws, k2),
{
    let m = (k2 - k1 - 1) as nat;
    lemma_drawn_sinks(s, draws, k1, m);
    lemma_after_facts(s, draws, k2);
    let st = jumble_after(s, draws, k2);
    assert(st[s.len() - 1 - m] == jumble_drawn(s, draws, k1));
    assert(draws[k2 as int] < s.len() / 2);
    assert(draws[k2 as int] != s.len() - 1 - m);
}

} // verus!
