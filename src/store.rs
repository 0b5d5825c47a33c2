//! A verified in-memory model of the store's rules: the `advisories` table
//! keys rows by advisory id, and a batch is written whole or not at all.
//! The tests load through it; the program itself writes to SQLite, which
//! this model does not check.
use vstd::prelude::*;
use crate::normalize::{
    advisory_row, affected_of, affected_rows, are_affected_rows, is_advisory_row, AdvisoryRow,
    AffectedRow,
};
use crate::osv::GitHubAdvisory;

verus! {

/// Why a batch was rolled back.
#[derive(Debug)]
pub enum BatchWriteError {
    /// The batch holds an id that is committed already or that repeats
    /// within the batch.
    DuplicateId { ghsa: String },
}

/// The ids of a list of advisory rows.
pub open spec fn row_ids(rows: Seq<AdvisoryRow>) -> Seq<Seq<char>> {
    rows.map_values(|r: AdvisoryRow| r.ghsa@)
}

/// The ids of a list of advisories.
pub open spec fn batch_ids(batch: Seq<GitHubAdvisory>) -> Seq<Seq<char>> {
    batch.map_values(|a: GitHubAdvisory| a.id@)
}

/// Committing `batch` on top of the ids `committed` would repeat a key.
pub open spec fn batch_conflicts(committed: Seq<Seq<char>>, batch: Seq<GitHubAdvisory>) -> bool {
    !(committed + batch_ids(batch)).no_duplicates()
}

/// The number of affected entries over a batch.
pub open spec fn affected_count(batch: Seq<GitHubAdvisory>) -> nat
    decreases batch.len(),
{
    if batch.len() == 0 {
        0
    } else {
        affected_count(batch.drop_last()) + affected_of(batch.last()).len()
    }
}

/// `rows` are the `affected_packages` rows of a batch: those of each
/// advisory in turn.
pub open spec fn are_batch_affected_rows(rows: Seq<AffectedRow>, batch: Seq<GitHubAdvisory>) -> bool
    decreases batch.len(),
{
    &&& rows.len() == affected_count(batch)
    &&& batch.len() > 0 ==> {
        let k = affected_count(batch.drop_last()) as int;
        &&& are_batch_affected_rows(rows.subrange(0, k), batch.drop_last())
        &&& are_affected_rows(rows.subrange(k, rows.len() as int), batch.last())
    }
}

/// `rows` are the `advisories` rows of a batch, in order.
pub open spec fn are_batch_advisory_rows(rows: Seq<AdvisoryRow>, batch: Seq<GitHubAdvisory>) -> bool {
    &&& rows.len() == batch.len()
    &&& forall|i: int| 0 <= i < rows.len() ==> #[trigger] is_advisory_row(rows[i], batch[i])
}

/// The two tables of the store. Rows borrow from the advisories they were
/// derived from.
pub struct MemStore<'a> {
    advisories: Vec<AdvisoryRow<'a>>,
    affected_packages: Vec<AffectedRow<'a>>,
}

impl<'a> MemStore<'a> {
    /// The rows of the `advisories` table, in commit order.
    pub closed spec fn advisory_rows(&self) -> Seq<AdvisoryRow<'a>> {
        self.advisories@
    }

    /// The rows of the `affected_packages` table, in commit order.
    pub closed spec fn affected_package_rows(&self) -> Seq<AffectedRow<'a>> {
        self.affected_packages@
    }

    /// The advisory id is a primary key.
    pub open spec fn wf(&self) -> bool {
        row_ids(self.advisory_rows()).no_duplicates()
    }

    /// An empty store.
    pub fn new() -> (r: MemStore<'a>)
        ensures
            r.wf(),
            r.advisory_rows().len() == 0,
            r.affected_package_rows().len() == 0,
    {
        MemStore { advisories: Vec::new(), affected_packages: Vec::new() }
    }

    pub fn advisories(&self) -> (r: &Vec<AdvisoryRow<'a>>)
        ensures
            r@ == self.advisory_rows(),
    {
        &self.advisories
    }

    pub fn affected_packages(&self) -> (r: &Vec<AffectedRow<'a>>)
        ensures
            r@ == self.affected_package_rows(),
    {
        &self.affected_packages
    }

    /// Whether an advisory with this id is committed.
    pub fn contains_id(&self, ghsa: &String) -> (r: bool)
        ensures
            r == row_ids(self.advisory_rows()).contains(ghsa@),
    {
        let mut i: usize = 0;
        while i < self.advisories.len()
            invariant
                i <= self.advisories@.len(),
                forall|j: int| 0 <= j < i ==> row_ids(self.advisories@)[j] != ghsa@,
            decreases self.advisories@.len() - i,
        {
            if *self.advisories[i].ghsa == *ghsa {
                assert(row_ids(self.advisories@)[i as int] == ghsa@);
                return true;
            }
            i += 1;
        }
        false
    }

    /// Writes a batch in one transaction: every advisory gets its
    /// `advisories` row and its `affected_packages` rows, or, where an id of
    /// the batch is committed already or repeats within it, nothing is
    /// written and the batch is reported.
    pub fn write_batch(&mut self, batch: &'a [GitHubAdvisory]) -> (r: Result<(), BatchWriteError>)
        requires
            old(self).wf(),
        ensures
            final(self).wf(),
            r is Err <==> batch_conflicts(row_ids(old(self).advisory_rows()), batch@),
            r is Err ==> *final(self) == *old(self),
            r is Ok ==> {
                let n = old(self).advisory_rows().len() as int;
                let m = old(self).affected_package_rows().len() as int;
                &&& final(self).advisory_rows().len() == n + batch@.len()
                &&& final(self).affected_package_rows().len() == m + affected_count(batch@)
                &&& final(self).advisory_rows().subrange(0, n) == old(self).advisory_rows()
                &&& are_batch_advisory_rows(final(self).advisory_rows().subrange(n, final(self).advisory_rows().len() as int), batch@)
                &&& final(self).affected_package_rows().subrange(0, m) == old(self).affected_package_rows()
                &&& are_batch_affected_rows(final(self).affected_package_rows().subrange(m, final(self).affected_package_rows().len() as int), batch@)
            },
    {
        let ghost committed = row_ids(self.advisories@);
        let ghost ids = batch_ids(batch@);
        // Find a repeated key before anything is written.
        let mut i: usize = 0;
        while i < batch.len()
            invariant
                i <= batch@.len(),
                committed == row_ids(self.advisories@),
                committed.no_duplicates(),
                ids == batch_ids(batch@),
                (committed + ids.subrange(0, i as int)).no_duplicates(),
            decreases batch@.len() - i,
        {
            let id = &batch[i].id;
            assert(ids[i as int] == id@);
            if self.contains_id(id) {
                proof {
                    let j = choose|j: int| 0 <= j < committed.len() && committed[j] == id@;
                    let all = committed + ids;
                    assert(all[j] == all[committed.len() + i]);
                }
                return Err(BatchWriteError::DuplicateId { ghsa: id.clone() });
            }
            let mut k: usize = 0;
            while k < i
                invariant
                    k <= i < batch@.len(),
                    committed == row_ids(self.advisories@),
                    committed.no_duplicates(),
                    ids == batch_ids(batch@),
                    id@ == ids[i as int],
                    forall|t: int| 0 <= t < k ==> ids[t] != id@,
                decreases i - k,
            {
                if batch[k].id == *id {
                    proof {
                        let all = committed + ids;
                        assert(all[committed.len() + k] == all[committed.len() + i]);
                    }
                    return Err(BatchWriteError::DuplicateId { ghsa: id.clone() });
                }
                k += 1;
            }
            proof {
                let pre = committed + ids.subrange(0, i as int);
                let post = committed + ids.subrange(0, i + 1);
                assert(post =~= pre.push(id@));
                assert forall|x: int, y: int| 0 <= x < post.len() && 0 <= y < post.len() && x != y implies post[x] != post[y] by {
                    if x < pre.len() && y < pre.len() {
                        assert(pre[x] != pre[y]);
                    } else if x == pre.len() as int {
                        if y < committed.len() {
                            assert(!committed.contains(id@));
                        } else {
                            assert(post[y] == ids[y - committed.len()]);
                        }
                    } else {
                        if x < committed.len() {
                            assert(!committed.contains(id@));
                        } else {
                            assert(post[x] == ids[x - committed.len()]);
                        }
                    }
                };
            }
            i += 1;
        }
        assert(ids.subrange(0, batch@.len() as int) =~= ids);
        // No key repeats: derive and append every row.
        let mut new_advisories: Vec<AdvisoryRow<'a>> = Vec::new();
        let mut new_packages: Vec<AffectedRow<'a>> = Vec::new();
        let mut i: usize = 0;
        while i < batch.len()
            invariant
                i <= batch@.len(),
                are_batch_advisory_rows(new_advisories@, batch@.subrange(0, i as int)),
                are_batch_affected_rows(new_packages@, batch@.subrange(0, i as int)),
            decreases batch@.len() - i,
        {
            let a: &'a GitHubAdvisory = &batch[i];
            new_advisories.push(advisory_row(a));
            let ghost before = new_packages@;
            let mut rows = affected_rows(a);
            let ghost added = rows@;
            new_packages.append(&mut rows);
            proof {
                let s = batch@.subrange(0, i + 1);
                assert(s.drop_last() =~= batch@.subrange(0, i as int));
                assert(new_packages@.subrange(0, before.len() as int) =~= before);
                assert(new_packages@.subrange(before.len() as int, new_packages@.len() as int) =~= added);
            }
            i += 1;
        }
        assert(batch@.subrange(0, batch@.len() as int) =~= batch@);
        let ghost old_adv = self.advisories@;
        let ghost old_pkg = self.affected_packages@;
        let ghost adv_rows = new_advisories@;
        let ghost pkg_rows = new_packages@;
        self.advisories.append(&mut new_advisories);
        self.affected_packages.append(&mut new_packages);
        proof {
            let n = old_adv.len() as int;
            let m = old_pkg.len() as int;
            assert(self.advisories@.subrange(0, n) =~= old_adv);
            assert(self.affected_packages@.subrange(0, m) =~= old_pkg);
            assert(self.advisories@.subrange(n, self.advisories@.len() as int) =~= adv_rows);
            assert(self.affected_packages@.subrange(m, self.affected_packages@.len() as int) =~= pkg_rows);
            assert forall|j: int| 0 <= j < adv_rows.len() implies row_ids(adv_rows)[j] == ids[j] by {
                assert(is_advisory_row(adv_rows[j], batch@[j]));
            };
            assert(row_ids(self.advisories@) =~= committed + ids);
        }
        Ok(())
    }
}

/// A batch of `n` advisories that each list `m` affected entries writes `n`
/// rows to `advisories` and `n * m` rows to `affected_packages`.
pub proof fn lemma_batch_row_counts(
    advisories: Seq<AdvisoryRow>,
    packages: Seq<AffectedRow>,
    batch: Seq<GitHubAdvisory>,
    m: nat,
)
    requires
        are_batch_advisory_rows(advisories, batch),
        are_batch_affected_rows(packages, batch),
        forall|i: int| 0 <= i < batch.len() ==> #[trigger] affected_of(batch[i]).len() == m,
    ensures
        advisories.len() == batch.len(),
        packages.len() == batch.len() * m,
{
    lemma_affected_count_uniform(batch, m);
}

/// Over a batch whose advisories each list `m` affected entries, the entries
/// number `m` times the advisories.
pub proof fn lemma_affected_count_uniform(batch: Seq<GitHubAdvisory>, m: nat)
    requires
        forall|i: int| 0 <= i < batch.len() ==> #[trigger] affected_of(batch[i]).len() == m,
    ensures
        affected_count(batch) == batch.len() * m,
    decreases batch.len(),
{
    if batch.len() > 0 {
        let rest = batch.drop_last();
        assert forall|i: int| 0 <= i < rest.len() implies #[trigger] affected_of(rest[i]).len() == m by {
            assert(rest[i] == batch[i]);
        };
        lemma_affected_count_uniform(rest, m);
        assert(affected_of(batch[batch.len() - 1]).len() == m);
        assert(batch.len() * m == rest.len() * m + m) by (nonlinear_arith)
            requires
                rest.len() + 1 == batch.len(),
        ;
    }
}

/// A batch that holds the id of an advisory committed already conflicts with
/// the store: its write is rolled back whole, and the store keeps what
/// earlier batches committed.
pub proof fn lemma_collision_rolls_back(store: MemStore, batch: Seq<GitHubAdvisory>, i: int)
    requires
        store.wf(),
        0 <= i < batch.len(),
        row_ids(store.advisory_rows()).contains(batch[i].id@),
    ensures
        batch_conflicts(row_ids(store.advisory_rows()), batch),
{
    let committed = row_ids(store.advisory_rows());
    let all = committed + batch_ids(batch);
    let j = choose|j: int| 0 <= j < committed.len() && committed[j] == batch[i].id@;
    assert(all[j] == all[committed.len() + i]);
}

} // verus!
