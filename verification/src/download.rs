//! The bounded concurrent downloader's core: a pre-sized, index-addressed
//! store of downloaded bodies plus the in-flight accounting that caps how
//! many fetches run at once.
//!
//! The transport completes fetches in any order; each completion writes only
//! its own slot, so the assembled output always lines up with the input URL
//! list position by position. The caller drives the fetch loop: it asks
//! [`Downloader::begin_fetch`] which URL index to start next, performs the
//! fetch outside the library, and hands the body back through
//! [`Downloader::record`].

use vstd::prelude::*;

use crate::errors::PipelineError;

verus! {

/// How many of the slots hold a downloaded body.
pub open spec fn filled_count(s: Seq<Option<Seq<u8>>>) -> int
    decreases s.len(),
{
    if s.len() == 0 {
        0
    } else {
        filled_count(s.drop_last()) + if s.last() is Some {
            1int
        } else {
            0int
        }
    }
}

proof fn lemma_filled_count_bounds(s: Seq<Option<Seq<u8>>>)
    ensures
        0 <= filled_count(s) <= s.len(),
    decreases s.len(),
{
    if s.len() > 0 {
        lemma_filled_count_bounds(s.drop_last());
    }
}

proof fn lemma_filled_count_update(s: Seq<Option<Seq<u8>>>, i: int, b: Seq<u8>)
    requires
        0 <= i < s.len(),
        s[i] is None,
    ensures
        filled_count(s.update(i, Some(b))) == filled_count(s) + 1,
    decreases s.len(),
{
    let t = s.update(i, Some(b));
    if i == s.len() - 1 {
        assert(t.drop_last() =~= s.drop_last());
    } else {
        assert(t.drop_last() =~= s.drop_last().update(i, Some(b)));
        lemma_filled_count_update(s.drop_last(), i, b);
    }
}

/// A store with an empty slot is not fully counted.
proof fn lemma_filled_count_missing(s: Seq<Option<Seq<u8>>>, i: int)
    requires
        0 <= i < s.len(),
        s[i] is None,
    ensures
        filled_count(s) <= s.len() - 1,
    decreases s.len(),
{
    if i == s.len() - 1 {
        lemma_filled_count_bounds(s.drop_last());
    } else {
        lemma_filled_count_missing(s.drop_last(), i);
    }
}

/// Slots past `k` that are all empty add nothing to the count.
proof fn lemma_filled_count_prefix(s: Seq<Option<Seq<u8>>>, k: int)
    requires
        0 <= k <= s.len(),
        forall|i: int| k <= i < s.len() ==> s[i] is None,
    ensures
        filled_count(s) == filled_count(s.subrange(0, k)),
    decreases s.len(),
{
    if k == s.len() {
        assert(s.subrange(0, k) =~= s);
    } else {
        assert(s.drop_last() =~= s.subrange(0, s.len() - 1));
        assert(s.drop_last().subrange(0, k) =~= s.subrange(0, k));
        lemma_filled_count_prefix(s.drop_last(), k);
    }
}

/// If every slot of a full store counted, each slot holds a body.
proof fn lemma_filled_count_full(s: Seq<Option<Seq<u8>>>)
    requires
        filled_count(s) == s.len(),
    ensures
        forall|i: int| 0 <= i < s.len() ==> s[i] is Some,
    decreases s.len(),
{
    if s.len() > 0 {
        lemma_filled_count_bounds(s.drop_last());
        if s.last() is Some {
            lemma_filled_count_full(s.drop_last());
            assert forall|i: int| 0 <= i < s.len() implies s[i] is Some by {
                if i < s.len() - 1 {
                    assert(s.drop_last()[i] is Some);
                }
            }
        }
    }
}

proof fn lemma_filled_count_none(s: Seq<Option<Seq<u8>>>)
    requires
        forall|i: int| 0 <= i < s.len() ==> s[i] is None,
    ensures
        filled_count(s) == 0,
    decreases s.len(),
{
    if s.len() > 0 {
        assert(forall|i: int| 0 <= i < s.len() - 1 ==> #[trigger] s.drop_last()[i] == s[i]);
        lemma_filled_count_none(s.drop_last());
    }
}

/// The downloader's state: one slot per input URL, written once each, and
/// the counters that bound how many fetches are in flight.
pub struct Downloader {
    limit: usize,
    started: usize,
    completed: usize,
    slots: Vec<Option<Vec<u8>>>,
}

impl View for Downloader {
    type V = Seq<Option<Seq<u8>>>;

    /// One entry per input URL: `None` until that URL's body is recorded.
    closed spec fn view(&self) -> Seq<Option<Seq<u8>>> {
        self.slots@.map_values(
            |slot: Option<Vec<u8>>|
                match slot {
                    Some(body) => Some(body@),
                    None => None,
                },
        )
    }
}

impl Downloader {
    /// The cap on fetches in flight.
    pub closed spec fn spec_limit(&self) -> int {
        self.limit as int
    }

    /// How many fetches have been started.
    pub closed spec fn spec_started(&self) -> int {
        self.started as int
    }

    /// How many bodies have been recorded.
    pub closed spec fn spec_completed(&self) -> int {
        self.completed as int
    }

    /// The downloader is consistent: fetches start in index order, at most
    /// as many as there are slots; the progress counter counts exactly the
    /// filled slots; and only started indices have been filled.
    pub closed spec fn wf(&self) -> bool {
        &&& 1 <= self.limit
        &&& self.started <= self.slots@.len()
        &&& self.completed <= self.started
        &&& self.completed as int == filled_count(self@)
        &&& forall|i: int| self.started <= i < self@.len() ==> self@[i] is None
    }

    /// A fresh downloader for `n` URLs: every slot empty, nothing started.
    pub fn new(n: usize, limit: usize) -> (d: Downloader)
        requires
            1 <= limit,
        ensures
            d.wf(),
            d@ =~= Seq::new(n as nat, |i: int| None::<Seq<u8>>),
            d.spec_started() == 0,
            d.spec_completed() == 0,
            d.spec_limit() == limit,
    {
        let mut slots: Vec<Option<Vec<u8>>> = Vec::new();
        let mut i: usize = 0;
        while i < n
            invariant
                i <= n,
                slots@.len() == i,
                forall|j: int| 0 <= j < i ==> slots@[j] is None,
            decreases n - i,
        {
            slots.push(None);
            i = i + 1;
        }
        let d = Downloader { limit, started: 0, completed: 0, slots };
        proof {
            lemma_filled_count_none(d@);
        }
        d
    }

    /// How many URLs the downloader was sized for.
    pub fn total(&self) -> (n: usize)
        ensures
            n == self@.len(),
    {
        self.slots.len()
    }

    /// How many bodies have been recorded so far (the shared progress
    /// counter of the batch).
    pub fn completed(&self) -> (c: usize)
        ensures
            c == self.spec_completed(),
    {
        self.completed
    }

    /// Hands out the next URL index to fetch, if the in-flight cap allows
    /// one more and any remain; fetches are handed out in input order.
    pub fn begin_fetch(&mut self) -> (r: Option<usize>)
        requires
            old(self).wf(),
        ensures
            final(self).wf(),
            final(self)@ == old(self)@,
            final(self).spec_limit() == old(self).spec_limit(),
            final(self).spec_completed() == old(self).spec_completed(),
            r is Some <==> (old(self).spec_started() < old(self)@.len() && old(
                self,
            ).spec_started() - old(self).spec_completed() < old(self).spec_limit()),
            r matches Some(i) ==> i == old(self).spec_started() && final(self).spec_started()
                == old(self).spec_started() + 1,
            r is None ==> final(self).spec_started() == old(self).spec_started(),
    {
        if self.started < self.slots.len() && self.started - self.completed < self.limit {
            let i: usize = self.started;
            self.started = self.started + 1;
            Some(i)
        } else {
            None
        }
    }

    /// Records the downloaded body of URL `index`. Slots are written once:
    /// the index must have been handed out and not recorded yet. Every other
    /// slot is untouched, whatever order completions arrive in.
    pub fn record(&mut self, index: usize, body: Vec<u8>)
        requires
            old(self).wf(),
            index < old(self).spec_started(),
            old(self)@[index as int] is None,
        ensures
            final(self).wf(),
            final(self)@ == old(self)@.update(index as int, Some(body@)),
            final(self).spec_started() == old(self).spec_started(),
            final(self).spec_limit() == old(self).spec_limit(),
            final(self).spec_completed() == old(self).spec_completed() + 1,
    {
        proof {
            let k: int = self.started as int;
            lemma_filled_count_prefix(self@, k);
            lemma_filled_count_missing(self@.subrange(0, k), index as int);
            lemma_filled_count_update(self@, index as int, body@);
        }
        self.slots.set(index, Some(body));
        self.completed = self.completed + 1;
        proof {
            assert(self@ =~= old(self)@.update(index as int, Some(body@)));
        }
    }

    /// Whether every slot has been filled.
    pub fn is_complete(&self) -> (r: bool)
        requires
            self.wf(),
        ensures
            r <==> self.spec_completed() == self@.len(),
            r ==> forall|i: int| 0 <= i < self@.len() ==> self@[i] is Some,
    {
        proof {
            if self.completed == self@.len() {
                lemma_filled_count_full(self@);
            }
        }
        self.completed == self.slots.len()
    }

    /// Hands the assembled bodies out, in input order: position `i` of the
    /// output is the body recorded for URL `i`. If any slot is still empty
    /// the whole batch fails, carrying the first unfilled index.
    pub fn finish(self) -> (r: Result<Vec<Vec<u8>>, PipelineError>)
        ensures
            r is Ok <==> (forall|i: int| 0 <= i < self@.len() ==> self@[i] is Some),
            r matches Ok(bodies) ==> bodies@.len() == self@.len() && (forall|i: int|
                0 <= i < self@.len() ==> Some(#[trigger] bodies@[i]@) == self@[i]),
            r matches Err(e) ==> (e matches PipelineError::PartialDownloadFailure { index }
                && 0 <= index < self@.len() && self@[index as int] is None && (forall|j: int|
                0 <= j < index ==> self@[j] is Some)),
    {
        let mut bodies: Vec<Vec<u8>> = Vec::new();
        let mut i: usize = 0;
        while i < self.slots.len()
            invariant
                i <= self@.len(),
                bodies@.len() == i,
                self@ == self.slots@.map_values(
                    |slot: Option<Vec<u8>>|
                        match slot {
                            Some(body) => Some(body@),
                            None => None,
                        },
                ),
                forall|j: int| 0 <= j < i ==> self@[j] is Some,
                forall|j: int| 0 <= j < i ==> Some(#[trigger] bodies@[j]@) == self@[j],
            decreases self@.len() - i,
        {
            match &self.slots[i] {
                Some(body) => {
                    let copy = body.clone();
                    assert(copy@ =~= body@);
                    assert(self@[i as int] == Some(body@));
                    bodies.push(copy);
                },
                None => {
                    assert(self@[i as int] is None);
                    return Err(PipelineError::PartialDownloadFailure { index: i });
                },
            }
            i = i + 1;
        }
        Ok(bodies)
    }
}

/// Law: completions commute. Recording two different slots in either order
/// leaves the same contents, so the assembled output does not depend on the
/// order in which downloads finish.
pub proof fn lemma_record_order_irrelevant(
    s: Seq<Option<Seq<u8>>>,
    i: int,
    j: int,
    a: Seq<u8>,
    b: Seq<u8>,
)
    requires
        0 <= i < s.len(),
        0 <= j < s.len(),
        i != j,
    ensures
        s.update(i, Some(a)).update(j, Some(b)) == s.update(j, Some(b)).update(i, Some(a)),
{
    assert(s.update(i, Some(a)).update(j, Some(b)) =~= s.update(j, Some(b)).update(i, Some(a)));
}

} // verus!
