use vstd::prelude::*;

verus! {

/// A contiguous run of candidates: `start, start + 1, ..., start + len - 1`.
#[derive(Clone, Copy, Debug, PartialEq, Eq, Structural)]
pub struct Batch {
    pub start: u64,
    pub len: u64,
}

impl Batch {
    /// One past the last candidate of the batch.
    pub open spec fn end(self) -> int {
        self.start + self.len
    }

    pub open spec fn contains(self, c: int) -> bool {
        self.start <= c < self.end()
    }

    pub open spec fn disjoint(self, other: Batch) -> bool {
        self.end() <= other.start || other.end() <= self.start
    }
}

/// The batches `s` follow one another without gap or overlap, from `origin` up to `cursor`.
pub open spec fn contiguous(s: Seq<Batch>, origin: int, cursor: int) -> bool {
    if s.len() == 0 {
        origin == cursor
    } else {
        &&& s[0].start == origin
        &&& s.last().end() == cursor
        &&& forall|i: int| 0 <= i < s.len() - 1 ==> #[trigger] s[i].end() == s[i + 1].start
    }
}

/// Some batch of `s` holds the candidate `c`.
pub open spec fn covered(s: Seq<Batch>, c: int) -> bool {
    exists|i: int| 0 <= i < s.len() && #[trigger] s[i].contains(c)
}

/// The candidate sequence `origin, origin + 1, ..., limit - 1`, handed out in batches
/// through a cursor that only moves forward.
pub struct Generator {
    pub origin: u64,
    pub cursor: u64,
    pub limit: u64,
    /// Every batch handed out so far, in order.
    pub issued: Ghost<Seq<Batch>>,
}

impl Generator {
    pub open spec fn wf(&self) -> bool {
        &&& self.origin <= self.cursor <= self.limit
        &&& contiguous(self.issued@, self.origin as int, self.cursor as int)
    }

    /// A generator over the candidates `start..end`.
    pub fn new(start: u64, end: u64) -> (g: Generator)
        requires
            start <= end,
        ensures
            g.wf(),
            g.origin == start,
            g.cursor == start,
            g.limit == end,
            g.issued@ == Seq::<Batch>::empty(),
    {
        Generator { origin: start, cursor: start, limit: end, issued: Ghost(Seq::empty()) }
    }

    /// A generator over every candidate from `start` on that a `u64` can hold.
    pub fn unbounded(start: u64) -> (g: Generator)
        ensures
            g.wf(),
            g.origin == start,
            g.cursor == start,
            g.limit == u64::MAX,
            g.issued@ == Seq::<Batch>::empty(),
    {
        Generator::new(start, u64::MAX)
    }

    /// True once every candidate has been handed out.
    pub fn is_exhausted(&self) -> (r: bool)
        ensures
            r == (self.cursor == self.limit),
    {
        self.cursor == self.limit
    }

    /// Hands out the next `size` candidates, or fewer where the space runs out first,
    /// and moves the cursor past them.
    pub fn next_batch(&mut self, size: u64) -> (b: Batch)
        requires
            old(self).wf(),
        ensures
            final(self).wf(),
            b.start == old(self).cursor,
            b.len == if size <= old(self).limit - old(self).cursor {
                size as int
            } else {
                old(self).limit - old(self).cursor
            },
            final(self).cursor == b.end(),
            final(self).origin == old(self).origin,
            final(self).limit == old(self).limit,
            final(self).issued@ == old(self).issued@.push(b),
    {
        let room = self.limit - self.cursor;
        let len: u64 = if size <= room { size } else { room };
        let b = Batch { start: self.cursor, len };
        proof {
            let s = self.issued@;
            let t = s.push(b);
            assert forall|i: int| 0 <= i < t.len() - 1 implies #[trigger] t[i].end() == t[i + 1].start by {
                if i < s.len() - 1 {
                    assert(t[i] == s[i] && t[i + 1] == s[i + 1]);
                }
            }
        }
        self.cursor = self.cursor + len;
        self.issued = Ghost(self.issued@.push(b));
        b
    }
}

proof fn lemma_ordered(s: Seq<Batch>, origin: int, cursor: int, i: int, j: int)
    requires
        contiguous(s, origin, cursor),
        0 <= i < j < s.len(),
    ensures
        s[i].end() <= s[j].start,
    decreases j - i,
{
    if i + 1 < j {
        lemma_ordered(s, origin, cursor, i, j - 1);
        assert(s[j - 1].end() == s[j].start);
    } else {
        assert(s[i].end() == s[i + 1].start);
    }
}

proof fn lemma_bounds(s: Seq<Batch>, origin: int, cursor: int, i: int)
    requires
        contiguous(s, origin, cursor),
        0 <= i < s.len(),
    ensures
        origin <= s[i].start,
        s[i].end() <= cursor,
{
    if i > 0 {
        lemma_ordered(s, origin, cursor, 0, i);
    }
    if i < s.len() - 1 {
        lemma_ordered(s, origin, cursor, i, s.len() - 1);
    }
}

proof fn lemma_covered(s: Seq<Batch>, origin: int, cursor: int, c: int)
    requires
        contiguous(s, origin, cursor),
        origin <= c < cursor,
    ensures
        covered(s, c),
    decreases s.len(),
{
    let n = s.len() - 1;
    if s[n].contains(c) {
        assert(covered(s, c));
    } else {
        let p = s.drop_last();
        assert(p.len() > 0);
        assert forall|i: int| 0 <= i < p.len() - 1 implies #[trigger] p[i].end() == p[i + 1].start by {
            assert(s[i].end() == s[i + 1].start);
        }
        assert(p.last().end() == s[n].start) by {
            assert(s[n - 1].end() == s[n].start);
        }
        lemma_covered(p, origin, s[n].start as int, c);
        let i = choose|i: int| 0 <= i < p.len() && #[trigger] p[i].contains(c);
        assert(s[i].contains(c));
        assert(covered(s, c));
    }
}

/// The batches handed out over a whole run partition a prefix of the candidate
/// sequence: each batch lies within `origin..cursor`, every candidate of that range
/// lies in some batch, and no candidate lies in two of them.
pub proof fn lemma_issued_partition(g: &Generator)
    requires
        g.wf(),
    ensures
        forall|i: int|
            0 <= i < g.issued@.len() ==> g.origin <= (#[trigger] g.issued@[i]).start
                && g.issued@[i].end() <= g.cursor,
        forall|c: int| g.origin <= c < g.cursor ==> #[trigger] covered(g.issued@, c),
        forall|i: int, j: int, c: int|
            0 <= i < j < g.issued@.len() && #[trigger] g.issued@[i].contains(c)
                ==> !#[trigger] g.issued@[j].contains(c),
{
    let s = g.issued@;
    let o = g.origin as int;
    let k = g.cursor as int;
    assert forall|i: int| 0 <= i < s.len() implies o <= (#[trigger] s[i]).start && s[i].end() <= k by {
        lemma_bounds(s, o, k, i);
    }
    assert forall|c: int| o <= c < k implies #[trigger] covered(s, c) by {
        lemma_covered(s, o, k, c);
    }
    assert forall|i: int, j: int, c: int|
        0 <= i < j < s.len() && #[trigger] s[i].contains(c) implies !#[trigger] s[j].contains(c) by {
        lemma_ordered(s, o, k, i, j);
    }
}

} // verus!
