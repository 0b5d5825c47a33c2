//! Grouping of parse outcomes into batches for the store writer.
use vstd::prelude::*;
use crate::osv::GitHubAdvisory;

verus! {

/// How many advisories one store transaction commits.
pub const BATCH_SIZE: usize = 1000;

/// Why one input document yielded no advisory: it could not be read, or it
/// does not match the schema.
#[derive(Debug)]
pub struct ParseError {
    /// The document's source, such as its path.
    pub source: String,
    /// The underlying cause, as text.
    pub cause: String,
}

impl ParseError {
    pub fn new(source: String, cause: String) -> (r: ParseError)
        ensures
            r.source == source,
            r.cause == cause,
    {
        ParseError { source, cause }
    }
}

/// Collects parsed advisories and hands them out in batches of a fixed size.
/// Failed parses are dropped and counted.
pub struct Batcher {
    pending: Vec<GitHubAdvisory>,
    size: usize,
    dropped: usize,
}

impl Batcher {
    /// The advisories waiting for a batch, in arrival order.
    pub closed spec fn pending(&self) -> Seq<GitHubAdvisory> {
        self.pending@
    }

    /// The size of a full batch.
    pub closed spec fn size(&self) -> nat {
        self.size as nat
    }

    /// How many failed parses were dropped so far.
    pub closed spec fn dropped(&self) -> nat {
        self.dropped as nat
    }

    /// A batch is never left full: it is handed out when it fills.
    pub open spec fn wf(&self) -> bool {
        &&& self.size() > 0
        &&& self.pending().len() < self.size()
    }

    /// A batcher for batches of `size` advisories.
    pub fn new(size: usize) -> (r: Batcher)
        requires
            size > 0,
        ensures
            r.wf(),
            r.size() == size,
            r.pending() == Seq::<GitHubAdvisory>::empty(),
            r.dropped() == 0,
    {
        Batcher { pending: Vec::new(), size, dropped: 0 }
    }

    pub fn batch_size(&self) -> (r: usize)
        ensures
            r == self.size(),
    {
        self.size
    }

    pub fn dropped_count(&self) -> (r: usize)
        ensures
            r == self.dropped(),
    {
        self.dropped
    }

    pub fn pending_count(&self) -> (r: usize)
        ensures
            r == self.pending().len(),
    {
        self.pending.len()
    }

    /// Takes one parse outcome. A failure is dropped and counted (the count
    /// saturates); a success joins the pending advisories, and when they reach
    /// the batch size they are handed out as one batch.
    pub fn push(&mut self, outcome: Result<GitHubAdvisory, ParseError>) -> (r: Option<Vec<GitHubAdvisory>>)
        requires
            old(self).wf(),
        ensures
            final(self).wf(),
            final(self).size() == old(self).size(),
            match outcome {
                Err(_) => {
                    &&& r is None
                    &&& final(self).pending() == old(self).pending()
                    &&& final(self).dropped() == if old(self).dropped() < usize::MAX {
                        old(self).dropped() + 1
                    } else {
                        old(self).dropped()
                    }
                },
                Ok(a) => {
                    &&& final(self).dropped() == old(self).dropped()
                    &&& if old(self).pending().len() + 1 == old(self).size() {
                        &&& r is Some
                        &&& r.unwrap()@ == old(self).pending().push(a)
                        &&& final(self).pending() == Seq::<GitHubAdvisory>::empty()
                    } else {
                        &&& r is None
                        &&& final(self).pending() == old(self).pending().push(a)
                    }
                },
            },
    {
        match outcome {
            Err(_) => {
                if self.dropped < usize::MAX {
                    self.dropped = self.dropped + 1;
                }
                None
            },
            Ok(a) => {
                self.pending.push(a);
                if self.pending.len() == self.size {
                    let batch = self.pending.split_off(0);
                    Some(batch)
                } else {
                    None
                }
            },
        }
    }

    /// Ends the run: hands out the last, partial batch, if any advisory is
    /// still pending.
    pub fn finish(self) -> (r: Option<Vec<GitHubAdvisory>>)
        ensures
            self.pending().len() == 0 ==> r is None,
            self.pending().len() > 0 ==> r is Some && r.unwrap()@ == self.pending(),
    {
        if self.pending.len() == 0 {
            None
        } else {
            Some(self.pending)
        }
    }
}

/// The advisories among parse outcomes, in order; failures contribute none.
pub open spec fn successes(outcomes: Seq<Result<GitHubAdvisory, ParseError>>) -> Seq<GitHubAdvisory>
    decreases outcomes.len(),
{
    if outcomes.len() == 0 {
        Seq::empty()
    } else {
        let rest = successes(outcomes.drop_last());
        match outcomes.last() {
            Ok(a) => rest.push(a),
            Err(_) => rest,
        }
    }
}

/// The advisories of a list of batches, batch after batch.
pub open spec fn joined(batches: Seq<Vec<GitHubAdvisory>>) -> Seq<GitHubAdvisory>
    decreases batches.len(),
{
    if batches.len() == 0 {
        Seq::empty()
    } else {
        joined(batches.drop_last()) + batches.last()@
    }
}

/// Every batch holds `size` advisories but the last, which holds at least
/// one and at most `size`.
pub open spec fn batch_sizes_ok(batches: Seq<Vec<GitHubAdvisory>>, size: nat) -> bool {
    forall|i: int| 0 <= i < batches.len() ==> {
        &&& 0 < #[trigger] batches[i]@.len() <= size
        &&& i < batches.len() - 1 ==> batches[i]@.len() == size
    }
}

/// Groups the advisories among parse outcomes into batches of `size`, in
/// arrival order; failed parses are dropped.
pub fn into_batches(outcomes: Vec<Result<GitHubAdvisory, ParseError>>, size: usize) -> (r: Vec<Vec<GitHubAdvisory>>)
    requires
        size > 0,
    ensures
        joined(r@) == successes(outcomes@),
        batch_sizes_ok(r@, size as nat),
{
    let ghost all = outcomes@;
    let mut batcher = Batcher::new(size);
    let mut r: Vec<Vec<GitHubAdvisory>> = Vec::new();
    for o in it: outcomes.into_iter()
        invariant
            it.seq() == all,
            batcher.wf(),
            batcher.size() == size,
            joined(r@) + batcher.pending() == successes(all.take(it.index() as int)),
            forall|j: int| 0 <= j < r@.len() ==> #[trigger] r@[j]@.len() == size,
    {
        let ghost i = it.index();
        let ghost pending = batcher.pending();
        proof {
            assert(all.take(i + 1).drop_last() =~= all.take(i as int));
        }
        match batcher.push(o) {
            Some(b) => {
                let ghost prev = r@;
                r.push(b);
                assert(r@.drop_last() =~= prev);
                assert(joined(r@) =~= joined(prev) + pending.push(all[i as int]->Ok_0));
            },
            None => {
                assert(all.take(i + 1).last() == all[i as int]);
            },
        }
    }
    assert(all.take(all.len() as int) =~= all);
    match batcher.finish() {
        Some(b) => {
            let ghost prev = r@;
            r.push(b);
            assert(r@.drop_last() =~= prev);
            assert forall|j: int| 0 <= j < r@.len() implies 0 < #[trigger] r@[j]@.len() <= size by {
                if j < prev.len() {
                    assert(r@[j] == prev[j]);
                }
            };
        },
        None => {
            assert(joined(r@) + Seq::<GitHubAdvisory>::empty() =~= joined(r@));
        },
    }
    r
}

/// A failed parse contributes no advisory, wherever it stands among the
/// outcomes: taking it out leaves the advisories that are loaded unchanged.
pub proof fn lemma_failure_contributes_nothing(outcomes: Seq<Result<GitHubAdvisory, ParseError>>, i: int)
    requires
        0 <= i < outcomes.len(),
        outcomes[i] is Err,
    ensures
        successes(outcomes) == successes(outcomes.remove(i)),
    decreases outcomes.len(),
{
    if i == outcomes.len() - 1 {
        assert(outcomes.remove(i) =~= outcomes.drop_last());
    } else {
        let rest = outcomes.drop_last();
        lemma_failure_contributes_nothing(rest, i);
        assert(outcomes.remove(i).drop_last() =~= rest.remove(i));
        assert(outcomes.remove(i).last() == outcomes.last());
    }
}

} // verus!
