use vstd::prelude::*;

use crate::generator::{Batch, Generator};
use crate::hash::{hash_batch, hash_of};
use crate::options::Options;
use crate::pattern::{first_match, texts, Matcher, PatternError};

verus! {

/// A candidate whose hash text matched, with the index of the first pattern that matched it.
#[derive(Debug)]
pub struct Match {
    pub candidate: u64,
    pub hash: String,
    pub pattern: usize,
}

impl View for Match {
    type V = (int, Seq<char>, int);

    open spec fn view(&self) -> (int, Seq<char>, int) {
        (self.candidate as int, self.hash@, self.pattern as int)
    }
}

pub open spec fn match_views(v: Seq<Match>) -> Seq<(int, Seq<char>, int)> {
    v.map_values(|m: Match| m@)
}

/// The matches among the candidates `start, start + 1, ...` whose hash texts are
/// `hashes`, in candidate order.
pub open spec fn scan(pats: Seq<Seq<char>>, start: int, hashes: Seq<Seq<char>>) -> Seq<
    (int, Seq<char>, int),
>
    decreases hashes.len(),
{
    if hashes.len() == 0 {
        Seq::empty()
    } else {
        let n = hashes.len() - 1;
        let rest = scan(pats, start, hashes.drop_last());
        match first_match(pats, hashes[n]) {
            Some(k) => rest.push((start + n, hashes[n], k)),
            None => rest,
        }
    }
}

/// The first `n` entries of `s`, or all of them where there are fewer.
pub open spec fn upto<A>(s: Seq<A>, n: int) -> Seq<A> {
    if s.len() <= n {
        s
    } else {
        s.take(n)
    }
}

/// A device index that no device has.
#[derive(Debug, PartialEq, Eq, Structural)]
pub enum DeviceError {
    InvalidIndex { index: usize, available: usize },
}

/// A failure while a worker computed the hashes of a batch.
#[derive(Debug)]
pub struct ComputeError {
    pub batch: Batch,
    pub device: Option<usize>,
    pub message: String,
}

/// Why a search could not run to its end.
#[derive(Debug)]
pub enum SearchError {
    Pattern(PatternError),
    Device(DeviceError),
    Compute(ComputeError),
}

/// How a search that ran to its end came out.
#[derive(Debug)]
pub enum SearchOutcome {
    /// As many matches as were asked for.
    Found(Vec<Match>),
    /// Every candidate was examined and fewer matches exist.
    Exhausted(Vec<Match>),
}

/// Checks a requested device index against the number of devices present.
pub fn select_device(requested: Option<usize>, available: usize) -> (r: Result<
    Option<usize>,
    DeviceError,
>)
    ensures
        match requested {
            None => r == Ok::<Option<usize>, DeviceError>(None),
            Some(i) => if i < available {
                r == Ok::<Option<usize>, DeviceError>(Some(i))
            } else {
                r == Err::<Option<usize>, DeviceError>(
                    DeviceError::InvalidIndex { index: i, available },
                )
            },
        },
{
    match requested {
        None => Ok(None),
        Some(i) => if i < available {
            Ok(Some(i))
        } else {
            Err(DeviceError::InvalidIndex { index: i, available })
        },
    }
}

/// What a search holds, seen as plain values.
pub ghost struct SearchView {
    pub patterns: Seq<Seq<char>>,
    pub origin: int,
    pub cursor: int,
    pub limit: int,
    pub batch_size: int,
    pub target: int,
    /// Batches handed to workers whose results have not come back.
    pub pending: Seq<Batch>,
    /// Matches in the order they came in.
    pub found: Seq<(int, Seq<char>, int)>,
    pub cancelled: bool,
    pub failed: bool,
}

/// The coordinator of one search run: it hands out disjoint batches, takes back the
/// hash texts that a worker computed for a batch, collects the matches among them,
/// and raises the cancellation flag once enough have been found or a worker failed.
pub struct Search {
    matcher: Matcher,
    generator: Generator,
    batch_size: u64,
    target: usize,
    pending: Vec<Batch>,
    found: Vec<Match>,
    cancelled: bool,
    failure: Option<ComputeError>,
}

impl View for Search {
    type V = SearchView;

    closed spec fn view(&self) -> SearchView {
        SearchView {
            patterns: self.matcher@,
            origin: self.generator.origin as int,
            cursor: self.generator.cursor as int,
            limit: self.generator.limit as int,
            batch_size: self.batch_size as int,
            target: self.target as int,
            pending: self.pending@,
            found: match_views(self.found@),
            cancelled: self.cancelled,
            failed: self.failure is Some,
        }
    }
}

impl Search {
    pub closed spec fn wf(&self) -> bool {
        let v = self@;
        &&& self.generator.wf()
        &&& v.batch_size > 0
        &&& v.found.len() <= v.target
        &&& v.found.len() == v.target ==> v.cancelled
        &&& v.failed ==> v.cancelled
        &&& v.cancelled ==> v.found.len() == v.target || v.failed
        &&& forall|i: int|
            0 <= i < v.pending.len() ==> (#[trigger] v.pending[i]).len > 0 && v.origin
                <= v.pending[i].start && v.pending[i].end() <= v.cursor
        &&& forall|i: int, j: int|
            0 <= i < j < v.pending.len() ==> (#[trigger] v.pending[i]).disjoint(
                #[trigger] v.pending[j],
            )
        &&& forall|i: int|
            0 <= i < v.found.len() ==> v.origin <= (#[trigger] v.found[i]).0 < v.cursor
                && first_match(v.patterns, v.found[i].1) == Some(v.found[i].2)
        &&& forall|i: int, j: int|
            0 <= i < v.pending.len() && 0 <= j < v.found.len() ==> !(#[trigger] v.pending[i]).contains(
                (#[trigger] v.found[j]).0,
            )
        &&& forall|i: int, j: int|
            0 <= i < j < v.found.len() ==> (#[trigger] v.found[i]).0 != (#[trigger] v.found[j]).0
    }

    /// Starts a search over the candidates of `generator` that stops after `target`
    /// matches; with a target of zero it is over before it starts.
    pub fn new(matcher: Matcher, generator: Generator, batch_size: u64, target: usize) -> (s:
        Search)
        requires
            generator.wf(),
            batch_size > 0,
        ensures
            s.wf(),
            s@.patterns == matcher@,
            s@.origin == generator.origin,
            s@.cursor == generator.cursor,
            s@.limit == generator.limit,
            s@.batch_size == batch_size,
            s@.target == target,
            s@.pending == Seq::<Batch>::empty(),
            s@.found == Seq::<(int, Seq<char>, int)>::empty(),
            s@.cancelled == (target == 0),
            !s@.failed,
    {
        let s = Search {
            matcher,
            generator,
            batch_size,
            target,
            pending: Vec::new(),
            found: Vec::new(),
            cancelled: target == 0,
            failure: None,
        };
        assert(s@.found =~= Seq::<(int, Seq<char>, int)>::empty());
        s
    }

    /// Whether workers should stop asking for batches.
    pub fn is_cancelled(&self) -> (r: bool)
        ensures
            r == self@.cancelled,
    {
        self.cancelled
    }

    /// Whether the run is over: no batch is out, and either the flag is raised or
    /// every candidate has been handed out.
    pub fn is_finished(&self) -> (r: bool)
        ensures
            r == (self@.pending.len() == 0 && (self@.cancelled || self@.cursor == self@.limit)),
    {
        self.pending.len() == 0 && (self.cancelled || self.generator.is_exhausted())
    }

    /// Hands the next batch to a worker, or nothing once the flag is raised or the
    /// space is used up.
    pub fn next_batch(&mut self) -> (r: Option<Batch>)
        requires
            old(self).wf(),
        ensures
            final(self).wf(),
            old(self)@.cancelled || old(self)@.cursor == old(self)@.limit ==> r is None
                && final(self)@ == old(self)@,
            !(old(self)@.cancelled || old(self)@.cursor == old(self)@.limit) ==> (r matches Some(
                b,
            ) && b.start == old(self)@.cursor && b.len == (if old(self)@.batch_size
                <= old(self)@.limit - old(self)@.cursor {
                old(self)@.batch_size
            } else {
                old(self)@.limit - old(self)@.cursor
            }) && final(self)@ == (SearchView {
                cursor: b.end(),
                pending: old(self)@.pending.push(b),
                ..old(self)@
            })),
    {
        if self.cancelled || self.generator.is_exhausted() {
            return None;
        }
        let b = self.generator.next_batch(self.batch_size);
        self.pending.push(b);
        Some(b)
    }

    /// Takes back the hash texts of a batch that was handed out, one per candidate in
    /// order, and keeps the matches among them until the target is reached. Returns
    /// false, changing nothing, for a batch that is not out or texts of the wrong count.
    pub fn submit(&mut self, batch: Batch, hashes: &Vec<String>) -> (accepted: bool)
        requires
            old(self).wf(),
        ensures
            final(self).wf(),
            accepted == (old(self)@.pending.contains(batch) && hashes@.len() == batch.len),
            !accepted ==> final(self)@ == old(self)@,
            accepted ==> (exists|i: int|
                0 <= i < old(self)@.pending.len() && old(self)@.pending[i] == batch
                    && final(self)@.pending == old(self)@.pending.remove(i)),
            accepted ==> final(self)@.found == old(self)@.found + upto(
                scan(old(self)@.patterns, batch.start as int, texts(hashes@)),
                old(self)@.target - old(self)@.found.len(),
            ),
            accepted ==> final(self)@.cancelled == (old(self)@.cancelled
                || final(self)@.found.len() == old(self)@.target),
            accepted ==> final(self)@ == (SearchView {
                pending: final(self)@.pending,
                found: final(self)@.found,
                cancelled: final(self)@.cancelled,
                ..old(self)@
            }),
    {
        let ghost old_view = self@;
        let mut idx: usize = 0;
        while idx < self.pending.len() && !(self.pending[idx] == batch)
            invariant
                self@ == old_view,
                idx <= self.pending@.len(),
                forall|j: int| 0 <= j < idx ==> self.pending@[j] != batch,
            decreases self.pending@.len() - idx,
        {
            idx = idx + 1;
        }
        if idx == self.pending.len() || hashes.len() as u64 != batch.len {
            return false;
        }
        let ghost pats = old_view.patterns;
        let ghost h = texts(hashes@);
        let ghost cap = old_view.target - old_view.found.len();
        let ghost old_found = old_view.found;
        proof {
            assert(self.pending@[idx as int] == batch);
            assert(old_view.pending.contains(batch));
        }
        self.pending.remove(idx);
        let n = hashes.len();
        let mut j: usize = 0;
        while j < n
            invariant
                n == hashes@.len() == batch.len,
                j <= n,
                h == texts(hashes@),
                pats == self.matcher@,
                self.generator == old(self).generator,
                self.target == old_view.target,
                self.batch_size == old_view.batch_size,
                self.cancelled == old_view.cancelled,
                (self.failure is Some) == old_view.failed,
                self.pending@ == old_view.pending.remove(idx as int),
                0 <= idx < old_view.pending.len(),
                old_view.pending[idx as int] == batch,
                old_found.len() <= self.found@.len(),
                self.matcher@ == old_view.patterns,
                batch.start + batch.len <= self.generator.cursor,
                old_view.origin <= batch.start,
                self.found@.len() <= self.target,
                match_views(self.found@) == old_found + upto(
                    scan(pats, batch.start as int, h.take(j as int)),
                    cap,
                ),
                cap == old_view.target - old_found.len(),
                forall|i: int|
                    old_found.len() <= i < self.found@.len() ==> batch.start
                        <= (#[trigger] self.found@[i]).candidate < batch.start + j
                        && first_match(pats, self.found@[i].hash@) == Some(
                        self.found@[i].pattern as int,
                    ),
                forall|i: int, k: int|
                    old_found.len() <= i < k < self.found@.len() ==> (#[trigger] self.found@[i]).candidate
                        < (#[trigger] self.found@[k]).candidate,
                forall|i: int|
                    0 <= i < old_found.len() ==> (#[trigger] self.found@[i])@ == old_found[i],
            decreases n - j,
        {
            let ghost before = self.found@;
            proof {
                assert(h.take(j + 1).drop_last() =~= h.take(j as int));
                assert(h.take(j + 1)[j as int] == hashes@[j as int]@);
            }
            if self.found.len() < self.target {
                match self.matcher.matches(hashes[j].as_str()) {
                    Some(k) => {
                        let m = Match { candidate: batch.start + j as u64, hash: hashes[j].clone(), pattern: k };
                        self.found.push(m);
                        proof {
                            assert(match_views(self.found@) =~= match_views(before).push(m@));
                        }
                    },
                    None => {},
                }
            }
            j = j + 1;
        }
        proof {
            assert(h.take(n as int) =~= h);
        }
        if self.found.len() == self.target {
            self.cancelled = true;
        }
        proof {
            let v = self@;
            let ov = old_view;
            let k = idx as int;
            assert(v.found.len() == self.found@.len());
            assert forall|i: int| 0 <= i < v.pending.len() implies #[trigger] v.pending[i] == ov.pending[if i < k { i } else { i + 1 }] by {}
            assert forall|i: int| 0 <= i < v.found.len() implies #[trigger] v.found[i] == self.found@[i]@ by {}
            assert forall|i: int|
                0 <= i < v.pending.len() implies (#[trigger] v.pending[i]).len > 0 && v.origin
                    <= v.pending[i].start && v.pending[i].end() <= v.cursor by {
                let i2 = if i < k { i } else { i + 1 };
                assert(ov.pending[i2] == v.pending[i]);
            }
            assert forall|i: int, j: int| 0 <= i < j < v.pending.len() implies (#[trigger] v.pending[i]).disjoint(#[trigger] v.pending[j]) by {
                let i2 = if i < k { i } else { i + 1 };
                let j2 = if j < k { j } else { j + 1 };
                assert(ov.pending[i2] == v.pending[i]);
                assert(ov.pending[j2] == v.pending[j]);
            }
            assert forall|i: int| 0 <= i < v.found.len() implies v.origin <= (#[trigger] v.found[i]).0 < v.cursor
                && first_match(v.patterns, v.found[i].1) == Some(v.found[i].2) by {
                if i < old_found.len() {
                    assert(v.found[i] == ov.found[i]);
                } else {
                    assert(self.found@[i]@ == v.found[i]);
                }
            }
            assert forall|i: int, j: int|
                0 <= i < v.pending.len() && 0 <= j < v.found.len() implies !(#[trigger] v.pending[i]).contains((#[trigger] v.found[j]).0) by {
                let i2 = if i < k { i } else { i + 1 };
                assert(ov.pending[i2] == v.pending[i]);
                if j < old_found.len() {
                    assert(v.found[j] == ov.found[j]);
                } else {
                    assert(self.found@[j]@ == v.found[j]);
                    if i2 < k {
                        assert(ov.pending[i2].disjoint(ov.pending[k]));
                    } else {
                        assert(ov.pending[k].disjoint(ov.pending[i2]));
                    }
                }
            }
            assert forall|i: int, j: int| 0 <= i < j < v.found.len() implies (#[trigger] v.found[i]).0 != (#[trigger] v.found[j]).0 by {
                assert(self.found@[i]@ == v.found[i]);
                assert(self.found@[j]@ == v.found[j]);
                if j < old_found.len() {
                    assert(v.found[i] == ov.found[i]);
                    assert(v.found[j] == ov.found[j]);
                } else if i < old_found.len() {
                    assert(v.found[i] == ov.found[i]);
                    assert(!ov.pending[k].contains(ov.found[i].0));
                }
            }
            assert(v.pending =~= ov.pending.remove(k));
        }
        true
    }
}


impl Search {
    /// The first compute failure reported, if any.
    pub closed spec fn failure(&self) -> Option<ComputeError> {
        self.failure
    }

    /// Records a worker's fatal failure and raises the cancellation flag; the first
    /// failure reported is the one the run ends with.
    pub fn abort(&mut self, error: ComputeError)
        requires
            old(self).wf(),
        ensures
            final(self).wf(),
            final(self)@ == (SearchView { cancelled: true, failed: true, ..old(self)@ }),
            final(self).failure() == (if old(self).failure() is Some {
                old(self).failure()
            } else {
                Some(error)
            }),
    {
        self.cancelled = true;
        if self.failure.is_none() {
            self.failure = Some(error);
        }
    }

    /// Ends a run that is over: the first failure if a worker failed (the matches are
    /// then dropped), otherwise the matches in the order they came in.
    pub fn finish(self) -> (r: Result<SearchOutcome, ComputeError>)
        requires
            self.wf(),
            self@.pending.len() == 0,
            self@.cancelled || self@.cursor == self@.limit,
        ensures
            r is Err <==> self@.failed,
            r matches Err(e) ==> self.failure() == Some(e),
            r matches Ok(SearchOutcome::Found(v)) ==> match_views(v@) == self@.found
                && self@.found.len() == self@.target,
            r matches Ok(SearchOutcome::Exhausted(v)) ==> match_views(v@) == self@.found
                && self@.found.len() < self@.target && self@.cursor == self@.limit,
            r is Ok ==> (r->Ok_0 is Found <==> self@.found.len() == self@.target),
    {
        match self.failure {
            Some(e) => Err(e),
            None => {
                if self.found.len() == self.target {
                    Ok(SearchOutcome::Found(self.found))
                } else {
                    Ok(SearchOutcome::Exhausted(self.found))
                }
            },
        }
    }
}

/// Every match a search holds is one that the patterns give again when its hash text
/// is tested anew, it lies among the candidates handed out so far, and no candidate
/// is reported twice, whatever order the batches came back in.
pub proof fn lemma_matches_recheck(s: &Search)
    requires
        s.wf(),
    ensures
        forall|i: int|
            0 <= i < s@.found.len() ==> first_match(s@.patterns, (#[trigger] s@.found[i]).1)
                == Some(s@.found[i].2) && s@.origin <= s@.found[i].0 < s@.cursor,
        forall|i: int, j: int|
            0 <= i < j < s@.found.len() ==> (#[trigger] s@.found[i]).0 != (#[trigger] s@.found[j]).0,
{
}

/// Scanning two runs of hash texts one after the other finds the matches of the
/// first run followed by those of the second.
pub proof fn lemma_scan_append(
    pats: Seq<Seq<char>>,
    start: int,
    a: Seq<Seq<char>>,
    b: Seq<Seq<char>>,
)
    ensures
        scan(pats, start, a + b) == scan(pats, start, a) + scan(pats, start + a.len(), b),
    decreases b.len(),
{
    if b.len() == 0 {
        assert(a + b =~= a);
        assert(scan(pats, start, a) + scan(pats, start + a.len(), b) =~= scan(pats, start, a));
    } else {
        let ab = a + b;
        assert(ab.drop_last() =~= a + b.drop_last());
        assert(ab[ab.len() - 1] == b[b.len() - 1]);
        lemma_scan_append(pats, start, a, b.drop_last());
        let n = b.len() - 1;
        match first_match(pats, b[n]) {
            Some(k) => {
                assert(scan(pats, start, a) + scan(pats, start + a.len(), b) =~= (scan(pats, start, a)
                    + scan(pats, start + a.len(), b.drop_last())).push((start + a.len() + n, b[n], k)));
            },
            None => {},
        }
    }
}

proof fn lemma_upto_append<A>(x: Seq<A>, y: Seq<A>, t: int)
    requires
        x.len() < t,
    ensures
        x + upto(y, t - x.len()) == upto(x + y, t),
{
    if y.len() > t - x.len() {
        assert(x + y.take(t - x.len()) =~= (x + y).take(t));
    }
}

/// What holds of a search by one worker over the candidates from `start` on, whose
/// hash texts are `h`, between two batches.
pub open spec fn single_run_state(
    v: SearchView,
    pats: Seq<Seq<char>>,
    start: int,
    h: Seq<Seq<char>>,
    target: int,
    batch_size: int,
) -> bool {
    &&& v.pending.len() == 0
    &&& v.patterns == pats
    &&& start <= v.cursor <= v.limit
    &&& v.limit == start + h.len()
    &&& v.target == target
    &&& v.batch_size == batch_size
    &&& !v.failed
    &&& v.found == upto(scan(pats, start, h.take(v.cursor - start)), target)
    &&& v.cancelled == (v.found.len() == target)
}

/// Taking in the matches of the batch `c..to`, while fewer than `target` were found
/// among the candidates before it, gives the matches found up to `to`.
proof fn lemma_run_step(pats: Seq<Seq<char>>, start: int, h: Seq<Seq<char>>, c: int, to: int, target: int)
    requires
        0 <= c <= to <= h.len(),
        upto(scan(pats, start, h.take(c)), target).len() < target,
    ensures
        upto(scan(pats, start, h.take(c)), target) + upto(
            scan(pats, start + c, h.subrange(c, to)),
            target - upto(scan(pats, start, h.take(c)), target).len(),
        ) == upto(scan(pats, start, h.take(to)), target),
{
    assert(h.take(to) =~= h.take(c) + h.subrange(c, to));
    lemma_scan_append(pats, start, h.take(c), h.subrange(c, to));
    lemma_upto_append(scan(pats, start, h.take(c)), scan(pats, start + c, h.subrange(c, to)), target);
}

/// Once the target is met, or every candidate was examined, the matches found so far
/// are those of the whole run.
proof fn lemma_run_end(pats: Seq<Seq<char>>, start: int, h: Seq<Seq<char>>, c: int, target: int)
    requires
        0 <= c <= h.len(),
        0 <= target,
        upto(scan(pats, start, h.take(c)), target).len() == target || c == h.len(),
    ensures
        upto(scan(pats, start, h.take(c)), target) == single_run(pats, start, h, target),
        upto(scan(pats, start, h.take(c)), target).len() == target <==> scan(pats, start, h).len() >= target,
{
    lemma_scan_append(pats, start, h.take(c), h.subrange(c, h.len() as int));
    assert(h.take(c) + h.subrange(c, h.len() as int) =~= h);
    let x = scan(pats, start, h.take(c));
    let y = scan(pats, start + c, h.subrange(c, h.len() as int));
    if c == h.len() {
        assert(h.take(c) =~= h);
    } else {
        assert(x.len() >= target);
        assert((x + y).len() >= target);
        assert((x + y).take(target) =~= x.take(target));
    }
}

/// The outcome of a search by one worker over the candidates from `start` on whose
/// hash texts are `hashes`: the first `target` matches in candidate order, or all of
/// them where there are fewer.
pub open spec fn single_run(
    pats: Seq<Seq<char>>,
    start: int,
    hashes: Seq<Seq<char>>,
    target: int,
) -> Seq<(int, Seq<char>, int)> {
    upto(scan(pats, start, hashes), target)
}

/// Runs a whole search with one worker over a finite candidate space, given the hash
/// text of each of its candidates in order. The result depends neither on the batch
/// size nor on anything but the patterns, the space and the target, so running it
/// again gives the same matches.
pub fn run_single(matcher: Matcher, generator: Generator, batch_size: u64, target: usize, hashes: &Vec<String>) -> (r: SearchOutcome)
    requires
        generator.wf(),
        batch_size > 0,
        hashes@.len() == generator.limit - generator.cursor,
    ensures
        match r {
            SearchOutcome::Found(v) => match_views(v@) == single_run(matcher@, generator.cursor as int, texts(hashes@), target as int)
                && scan(matcher@, generator.cursor as int, texts(hashes@)).len() >= target,
            SearchOutcome::Exhausted(v) => match_views(v@) == single_run(matcher@, generator.cursor as int, texts(hashes@), target as int)
                && scan(matcher@, generator.cursor as int, texts(hashes@)).len() < target,
        },
{
    let ghost pats = matcher@;
    let ghost h = texts(hashes@);
    let start = generator.cursor;
    let mut search = Search::new(matcher, generator, batch_size, target);
    proof {
        assert(search@.found =~= upto(scan(pats, start as int, h.take(0)), target as int));
    }
    while !search.is_finished()
        invariant
            search.wf(),
            single_run_state(search@, pats, start as int, h, target as int, batch_size as int),
            h == texts(hashes@),
            h.len() == hashes@.len(),
        decreases search@.limit - search@.cursor,
    {
        match search.next_batch() {
            None => {},
            Some(b) => {
                assert(b.start + b.len <= start + hashes@.len());
                // the length of a Vec fits in usize, so both slice bounds do too
                let total: usize = hashes.len();
                let from: usize = (b.start - start) as usize;
                let to: usize = (b.start - start + b.len) as usize;
                let mut part: Vec<String> = Vec::new();
                let mut i: usize = from;
                while i < to
                    invariant
                        from <= i <= to <= hashes@.len(),
                        part@.len() == i - from,
                        forall|j: int| 0 <= j < part@.len() ==> (#[trigger] part@[j])@ == hashes@[from + j]@,
                    decreases to - i,
                {
                    part.push(hashes[i].clone());
                    i = i + 1;
                }
                proof {
                    assert(texts(part@) =~= h.subrange(from as int, to as int));
                    assert(search@.pending[0] == b);
                }
                let ok = search.submit(b, &part);
                proof {
                    assert(ok);
                    lemma_run_step(pats, start as int, h, from as int, to as int, target as int);
                    assert(search@.pending =~= Seq::<Batch>::empty());
                }
            },
        }
    }
    proof {
        lemma_run_end(pats, start as int, h, search@.cursor - start, target as int);
    }
    match search.finish() {
        Ok(outcome) => outcome,
        Err(_) => {
            proof {
                assert(false);
            }
            SearchOutcome::Exhausted(Vec::new())
        },
    }
}

/// The hash texts of the candidates `start, ..., end - 1`.
pub open spec fn space_hashes(start: int, end: int) -> Seq<Seq<char>> {
    Seq::new((end - start) as nat, |i: int| hash_of((start + i) as u64))
}

/// Runs a whole search with one CPU worker over the candidates of `generator`, hashing
/// each batch as it is handed out. Like `run_single`, the matches depend on the
/// patterns, the space and the target alone.
pub fn search_cpu(matcher: Matcher, generator: Generator, batch_size: u64, target: usize) -> (r: SearchOutcome)
    requires
        generator.wf(),
        batch_size > 0,
    ensures
        match r {
            SearchOutcome::Found(v) => match_views(v@) == single_run(matcher@, generator.cursor as int, space_hashes(generator.cursor as int, generator.limit as int), target as int)
                && scan(matcher@, generator.cursor as int, space_hashes(generator.cursor as int, generator.limit as int)).len() >= target,
            SearchOutcome::Exhausted(v) => match_views(v@) == single_run(matcher@, generator.cursor as int, space_hashes(generator.cursor as int, generator.limit as int), target as int)
                && scan(matcher@, generator.cursor as int, space_hashes(generator.cursor as int, generator.limit as int)).len() < target,
        },
{
    let ghost pats = matcher@;
    let start = generator.cursor;
    let ghost h = space_hashes(start as int, generator.limit as int);
    let mut search = Search::new(matcher, generator, batch_size, target);
    proof {
        assert(search@.found =~= upto(scan(pats, start as int, h.take(0)), target as int));
    }
    while !search.is_finished()
        invariant
            search.wf(),
            single_run_state(search@, pats, start as int, h, target as int, batch_size as int),
            search@.limit <= u64::MAX,
            h == space_hashes(start as int, search@.limit),
        decreases search@.limit - search@.cursor,
    {
        match search.next_batch() {
            None => {},
            Some(b) => {
                let part = hash_batch(b);
                let ghost from = b.start - start;
                let ghost to = from + b.len;
                proof {
                    assert(texts(part@) =~= h.subrange(from, to));
                    assert(search@.pending[0] == b);
                }
                let ok = search.submit(b, &part);
                proof {
                    assert(ok);
                    lemma_run_step(pats, start as int, h, from, to, target as int);
                    assert(search@.pending =~= Seq::<Batch>::empty());
                }
            },
        }
    }
    proof {
        lemma_run_end(pats, start as int, h, search@.cursor - start, target as int);
    }
    match search.finish() {
        Ok(outcome) => outcome,
        Err(_) => {
            proof {
                assert(false);
            }
            SearchOutcome::Exhausted(Vec::new())
        },
    }
}


/// Candidates per batch when none is configured.
pub const DEFAULT_BATCH_SIZE: u64 = 65536;

/// Matches to find when no number is configured.
pub const DEFAULT_NUM_MATCHES: usize = 1;

/// How a run is laid out: batch size, match target, the selected device, and the
/// number of workers (one per CPU thread plus one for the device, if any).
#[derive(Debug, Clone, Copy, PartialEq, Eq, Structural)]
pub struct Plan {
    pub batch_size: u64,
    pub target: usize,
    pub device: Option<usize>,
    pub workers: usize,
}

/// Lays out a run from the options, given how many devices exist and how many
/// threads the machine runs in parallel. The counts that must be positive are, as
/// `Options::from_arguments` leaves them.
pub fn plan(options: &Options, devices: usize, parallelism: usize) -> (r: Result<Plan, DeviceError>)
    requires
        !(options.batch_size matches Some(0)),
        !(options.threads matches Some(0)),
        parallelism >= 1,
    ensures
        r is Err <==> (options.device matches Some(i) && i >= devices),
        r matches Err(e) ==> e == (DeviceError::InvalidIndex {
            index: options.device->Some_0,
            available: devices,
        }),
        r matches Ok(p) ==> p.device == options.device && p.batch_size > 0 && p.batch_size == match options.batch_size {
            None => DEFAULT_BATCH_SIZE as int,
            Some(b) => b as int,
        } && p.target == match options.num_matches {
            None => DEFAULT_NUM_MATCHES,
            Some(n) => n,
        } && p.workers as int == {
            let w = match options.threads {
                None => parallelism as int,
                Some(t) => t as int,
            } + if options.device is Some { 1int } else { 0int };
            if w > usize::MAX { usize::MAX as int } else { w }
        } && p.workers >= 1,
{
    let device = match select_device(options.device, devices) {
        Ok(d) => d,
        Err(e) => {
            return Err(e);
        },
    };
    let batch_size: u64 = match options.batch_size {
        None => DEFAULT_BATCH_SIZE,
        Some(b) => b as u64,
    };
    let target = match options.num_matches {
        None => DEFAULT_NUM_MATCHES,
        Some(n) => n,
    };
    let threads = match options.threads {
        None => parallelism,
        Some(t) => t,
    };
    let workers = if device.is_some() {
        threads.saturating_add(1)
    } else {
        threads
    };
    Ok(Plan { batch_size, target, device, workers })
}

} // verus!
