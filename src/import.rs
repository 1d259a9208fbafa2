//! Incremental import: the catalog of resolved tracks, and the backlog of
//! discovered paths that is drained a bounded batch per tick.

use vstd::arithmetic::div_mod::lemma_div_plus_one;
use vstd::prelude::*;

use crate::cache::views;
use crate::tags::ExtractionError;
use crate::track::{Track, TrackView};

verus! {

/// How many paths one tick resolves at most.
pub const BATCH_SIZE: usize = 100;

/// The tracks that the successful results give, in order.
pub open spec fn successes(results: Seq<Result<Track, ExtractionError>>) -> Seq<TrackView>
    decreases results.len(),
{
    if results.len() == 0 {
        Seq::empty()
    } else {
        match results.last() {
            Ok(t) => successes(results.drop_last()).push(t@),
            Err(_) => successes(results.drop_last()),
        }
    }
}

/// How many of the results are failures.
pub open spec fn failure_count(results: Seq<Result<Track, ExtractionError>>) -> nat
    decreases results.len(),
{
    if results.len() == 0 {
        0
    } else {
        match results.last() {
            Ok(_) => failure_count(results.drop_last()),
            Err(_) => failure_count(results.drop_last()) + 1,
        }
    }
}

/// Every result is a success or a failure.
pub proof fn lemma_results_split(results: Seq<Result<Track, ExtractionError>>)
    ensures
        successes(results).len() + failure_count(results) == results.len(),
    decreases results.len(),
{
    if results.len() > 0 {
        lemma_results_split(results.drop_last());
    }
}

/// The successes of two runs of results, one after the other, are those of
/// the first run followed by those of the second.
pub proof fn lemma_successes_concat(
    a: Seq<Result<Track, ExtractionError>>,
    b: Seq<Result<Track, ExtractionError>>,
)
    ensures
        successes(a + b) == successes(a) + successes(b),
        failure_count(a + b) == failure_count(a) + failure_count(b),
    decreases b.len(),
{
    if b.len() == 0 {
        assert(a + b =~= a);
        assert(successes(a) + successes(b) =~= successes(a));
    } else {
        lemma_successes_concat(a, b.drop_last());
        assert((a + b).drop_last() =~= a + b.drop_last());
        assert((a + b).last() == b.last());
        match b.last() {
            Ok(t) => {
                assert((successes(a) + successes(b.drop_last())).push(t@) =~= successes(a)
                    + successes(b.drop_last()).push(t@));
            },
            Err(_) => {},
        }
    }
}

/// The in-memory collection of resolved tracks shown to the user.
pub struct Catalog {
    tracks: Vec<Track>,
}

impl View for Catalog {
    type V = Seq<TrackView>;

    closed spec fn view(&self) -> Seq<TrackView> {
        views(self.tracks@)
    }
}

impl Catalog {
    /// An empty catalog.
    pub fn new() -> (r: Catalog)
        ensures
            r@ == Seq::<TrackView>::empty(),
    {
        let r = Catalog { tracks: Vec::new() };
        assert(r@ =~= Seq::<TrackView>::empty());
        r
    }

    /// A catalog holding `tracks`, in order.
    pub fn from_tracks(tracks: Vec<Track>) -> (r: Catalog)
        ensures
            r@ == views(tracks@),
    {
        Catalog { tracks }
    }

    /// The number of tracks.
    pub fn len(&self) -> (r: usize)
        ensures
            r == self@.len(),
    {
        self.tracks.len()
    }

    /// The track shown at row `index`, if there is one.
    pub fn get(&self, index: usize) -> (r: Option<&Track>)
        ensures
            match r {
                Some(t) => index < self@.len() && t@ == self@[index as int],
                None => index >= self@.len(),
            },
    {
        if index < self.tracks.len() {
            Some(&self.tracks[index])
        } else {
            None
        }
    }

    /// All tracks, in order.
    pub fn tracks(&self) -> (r: &Vec<Track>)
        ensures
            views(r@) == self@,
    {
        &self.tracks
    }

    /// Appends a batch of tracks after those already present; no track is
    /// merged with one already there.
    pub fn append(&mut self, batch: Vec<Track>)
        ensures
            final(self)@ == old(self)@ + views(batch@),
    {
        let mut batch = batch;
        let ghost b = views(batch@);
        self.tracks.append(&mut batch);
        assert(views(self.tracks@) =~= views(old(self).tracks@) + b);
    }
}

/// The batches that draining `rem` with batch size `b` takes, in order:
/// each is the front of what is left, `b` paths or all that is left.
pub open spec fn drain_batches(rem: Seq<Seq<char>>, b: nat) -> Seq<Seq<Seq<char>>>
    decreases rem.len(),
{
    if rem.len() == 0 || b == 0 {
        Seq::empty()
    } else {
        let k = if rem.len() < b {
            rem.len()
        } else {
            b
        };
        seq![rem.take(k as int)] + drain_batches(rem.skip(k as int), b)
    }
}

/// Draining a backlog of `n` paths with a batch size `b > 0` takes exactly
/// `ceil(n / b)` batches. Each is non-empty and holds at most `b` paths; the
/// first is what `take_batch` hands out and the rest drain what it leaves.
/// Together they hand out every path once, in order. A drained backlog
/// yields no further batch.
pub proof fn lemma_drain_exhaustion(rem: Seq<Seq<char>>, b: nat)
    requires
        b > 0,
    ensures
        drain_batches(rem, b).len() == (rem.len() + b - 1) / (b as int),
        forall|j: int|
            0 <= j < drain_batches(rem, b).len() ==> 0 < (#[trigger] drain_batches(rem, b)[j]).len()
                <= b,
        drain_batches(rem, b).flatten() == rem,
        rem.len() > 0 ==> ({
            let k = if rem.len() < b {
                rem.len()
            } else {
                b
            };
            &&& drain_batches(rem, b)[0] == rem.take(k as int)
            &&& drain_batches(rem, b).drop_first() == drain_batches(rem.skip(k as int), b)
        }),
        drain_batches(Seq::<Seq<char>>::empty(), b).len() == 0,
    decreases rem.len(),
{
    let n = rem.len() as int;
    if n == 0 {
        assert((b - 1) / (b as int) == 0) by (nonlinear_arith)
            requires
                b > 0,
        ;
    } else {
        let k = if rem.len() < b {
            rem.len()
        } else {
            b
        };
        let rest = rem.skip(k as int);
        lemma_drain_exhaustion(rest, b);
        let d = drain_batches(rem, b);
        assert(d == seq![rem.take(k as int)] + drain_batches(rest, b));
        assert(d.drop_first() =~= drain_batches(rest, b));
        assert(d[0] == rem.take(k as int));
        assert forall|j: int| 0 <= j < d.len() implies 0 < (#[trigger] d[j]).len() <= b by {
            if j > 0 {
                assert(d[j] == drain_batches(rest, b)[j - 1]);
            }
        }
        assert(rem.take(k as int) + rest =~= rem);
        assert(d.first() == rem.take(k as int));
        if n < b {
            assert(rest.len() == 0);
            assert((n - 1) / (b as int) == 0) by (nonlinear_arith)
                requires
                    0 <= n - 1 < b,
            ;
        } else {
            assert(rest.len() == n - b);
        }
        lemma_div_plus_one(n - 1, b as int);
        assert(n + b - 1 == b + (n - 1));
    }
}

/// Where the catalog comes from at startup.
#[derive(Clone, Copy, Debug, PartialEq, Eq, Structural)]
pub enum StartupSource {
    /// The tracks read from the cache.
    Cache,
    /// A scan of the library's directory.
    Scan,
}

/// The catalog to start from: the cached tracks when the cache is in use
/// and could be read, else an empty catalog that a scan will fill.
pub fn initial_catalog(use_cache: bool, cached: Option<Vec<Track>>) -> (r: (Catalog, StartupSource))
    ensures
        use_cache && cached is Some ==> r.1 == StartupSource::Cache && r.0@ == views(
            cached->0@,
        ),
        !(use_cache && cached is Some) ==> r.1 == StartupSource::Scan && r.0@ == Seq::<
            TrackView,
        >::empty(),
{
    if use_cache {
        match cached {
            Some(tracks) => {
                return (Catalog::from_tracks(tracks), StartupSource::Cache);
            },
            None => {},
        }
    }
    (Catalog::new(), StartupSource::Scan)
}

/// The views of a sequence of paths.
pub open spec fn path_views(ps: Seq<String>) -> Seq<Seq<char>> {
    ps.map_values(|p: String| p@)
}

/// Why a batch's results were refused.
#[derive(Clone, Copy, Debug, PartialEq, Eq, Structural)]
pub enum ImportError {
    /// The number of results differs from the number of paths handed out.
    BatchMismatch,
}

/// The backlog of discovered paths, drained front first in bounded batches.
/// Each path is handed out once; a path that fails to resolve is counted
/// and dropped, never retried.
pub struct ImportScheduler {
    paths: Vec<String>,
    next: usize,
    pending: usize,
    failed: usize,
}

impl ImportScheduler {
    #[verifier::type_invariant]
    spec fn well_formed(self) -> bool {
        &&& self.next <= self.paths.len()
        &&& self.failed + self.pending <= self.next
    }

    /// The paths not yet handed out, in order.
    pub closed spec fn remaining(self) -> Seq<Seq<char>> {
        path_views(self.paths@).skip(self.next as int)
    }

    /// How many paths the last batch handed out whose results are awaited.
    pub closed spec fn pending_count(self) -> nat {
        self.pending as nat
    }

    /// How many paths have failed to resolve so far.
    pub closed spec fn failed_count(self) -> nat {
        self.failed as nat
    }

    /// A scheduler whose backlog is `paths`, in traversal order.
    pub fn new(paths: Vec<String>) -> (r: ImportScheduler)
        ensures
            r.remaining() == path_views(paths@),
            r.pending_count() == 0,
            r.failed_count() == 0,
    {
        let r = ImportScheduler { paths, next: 0, pending: 0, failed: 0 };
        assert(path_views(r.paths@).skip(0) =~= path_views(r.paths@));
        r
    }

    /// How many paths are left to hand out.
    pub fn remaining_len(&self) -> (r: usize)
        ensures
            r == self.remaining().len(),
    {
        proof {
            use_type_invariant(self);
        }
        self.paths.len() - self.next
    }

    /// How many paths the last batch handed out whose results are awaited.
    pub fn pending(&self) -> (r: usize)
        ensures
            r == self.pending_count(),
    {
        self.pending
    }

    /// How many paths have failed to resolve so far.
    pub fn failed(&self) -> (r: usize)
        ensures
            r == self.failed_count(),
    {
        self.failed
    }

    /// Whether every path has been handed out and its result taken.
    pub fn is_done(&self) -> (r: bool)
        ensures
            r == (self.remaining().len() == 0 && self.pending_count() == 0),
    {
        proof {
            use_type_invariant(self);
        }
        self.next == self.paths.len() && self.pending == 0
    }

    /// Hands out the next batch: the first `max` paths of the backlog, or
    /// all that are left when fewer remain. With nothing left the backlog is
    /// unchanged and the batch is empty.
    pub fn take_batch(&mut self, max: usize) -> (r: Vec<String>)
        ensures
            ({
                let rem = old(self).remaining();
                let k = if rem.len() < max {
                    rem.len()
                } else {
                    max as nat
                };
                &&& path_views(r@) == rem.take(k as int)
                &&& final(self).remaining() == rem.skip(k as int)
                &&& final(self).pending_count() == r@.len()
                &&& final(self).failed_count() == old(self).failed_count()
            }),
    {
        proof {
            use_type_invariant(&*self);
        }
        let ghost rem = path_views(self.paths@).skip(self.next as int);
        let left = self.paths.len() - self.next;
        let k = if left < max {
            left
        } else {
            max
        };
        let mut batch: Vec<String> = Vec::new();
        let start = self.next;
        for i in 0..k
            invariant
                start == self.next,
                start + k <= self.paths.len(),
                rem == path_views(self.paths@).skip(start as int),
                path_views(batch@) == rem.take(i as int),
        {
            let p = self.paths[start + i].clone();
            let ghost before = batch@;
            batch.push(p);
            assert(rem[i as int] == self.paths@[start + i]@);
            assert(batch@ == before.push(p));
            assert(path_views(batch@) =~= path_views(before).push(p@));
            assert(path_views(batch@) =~= rem.take(i as int + 1));
        }
        self.next = start + k;
        self.pending = k;
        assert(path_views(self.paths@).skip(self.next as int) =~= rem.skip(k as int));
        batch
    }

    /// One tick's batch: at most `BATCH_SIZE` paths from the front of the
    /// backlog; empty, and a no-op, once the backlog is drained.
    pub fn tick(&mut self) -> (r: Vec<String>)
        ensures
            ({
                let rem = old(self).remaining();
                let k = if rem.len() < BATCH_SIZE {
                    rem.len()
                } else {
                    BATCH_SIZE as nat
                };
                &&& path_views(r@) == rem.take(k as int)
                &&& final(self).remaining() == rem.skip(k as int)
                &&& final(self).pending_count() == r@.len()
                &&& final(self).failed_count() == old(self).failed_count()
            }),
    {
        self.take_batch(BATCH_SIZE)
    }

    /// Takes the results of the last batch, one per path handed out: the
    /// tracks that resolved are appended to `catalog` in order, and the
    /// failures are counted and dropped. Returns how many tracks were added.
    /// Results in a number other than the batch's size are refused and
    /// nothing changes.
    pub fn absorb_batch(
        &mut self,
        catalog: &mut Catalog,
        results: Vec<Result<Track, ExtractionError>>,
    ) -> (r: Result<usize, ImportError>)
        ensures
            results@.len() == old(self).pending_count() ==> {
                &&& r == Ok::<usize, ImportError>(successes(results@).len() as usize)
                &&& final(catalog)@ == old(catalog)@ + successes(results@)
                &&& final(self).failed_count() == old(self).failed_count() + failure_count(
                    results@,
                )
                &&& final(self).pending_count() == 0
                &&& final(self).remaining() == old(self).remaining()
            },
            results@.len() != old(self).pending_count() ==> {
                &&& r == Err::<usize, ImportError>(ImportError::BatchMismatch)
                &&& final(catalog)@ == old(catalog)@
                &&& *final(self) == *old(self)
            },
    {
        proof {
            use_type_invariant(&*self);
        }
        if results.len() != self.pending {
            return Err(ImportError::BatchMismatch);
        }
        let mut added: Vec<Track> = Vec::new();
        let mut fails: usize = 0;
        let mut results = results;
        let ghost all = results@;
        let n = results.len();
        let mut i: usize = 0;
        assert(all.skip(0) =~= all);
        while i < n
            invariant
                n == all.len(),
                n == self.pending,
                0 <= i <= n,
                results@ == all.skip(i as int),
                views(added@) == successes(all.take(i as int)),
                fails as nat == failure_count(all.take(i as int)),
                successes(all.take(i as int)).len() + failure_count(all.take(i as int)) == i,
            decreases n - i,
        {
            assert(all.take(i as int + 1).drop_last() =~= all.take(i as int));
            assert(all.take(i as int + 1).last() == all[i as int]);
            let item = results.remove(0);
            assert(results@ =~= all.skip(i as int + 1));
            match item {
                Ok(t) => {
                    added.push(t);
                    assert(views(added@) =~= successes(all.take(i as int + 1)));
                },
                Err(_) => {
                    fails = fails + 1;
                },
            }
            i = i + 1;
        }
        assert(all.take(n as int) =~= all);
        proof {
            lemma_results_split(all);
        }
        let count = added.len();
        catalog.append(added);
        self.pending = 0;
        self.failed = self.failed + fails;
        Ok(count)
    }
}

} // verus!
