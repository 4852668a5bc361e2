use vstd::prelude::*;

verus! {

/// Declaration of tokio's task handle type. Values of it are carried through
/// the registry opaquely; the library never inspects one, it only cancels it.
#[verifier::external_type_specification]
#[verifier::external_body]
#[verifier::reject_recursive_types(T)]
pub struct ExJoinHandle<T>(tokio::task::JoinHandle<T>);

/// Declaration of tokio's join error type, which the handle's trait impls
/// mention; the library never constructs or reads one.
#[verifier::external_type_specification]
#[verifier::external_body]
pub struct ExJoinError(tokio::task::JoinError);

/// Relies on tokio::task::JoinHandle::abort: signals the task for
/// cancellation (cooperative; the task ends at its next await point).
/// Nothing is assumed about the call's effect.
pub assume_specification<T>[ tokio::task::JoinHandle::<T>::abort ](
    handle: &tokio::task::JoinHandle<T>,
);

/// A cancellable unit of recurring work bound to exactly one tenant:
/// a caller-chosen numeric id, used by contracts and logs, plus the
/// underlying task handle.
pub struct JobHandle {
    /// An identifier for this job, chosen by the caller that spawned it.
    pub job_id: u64,
    /// The underlying task handle.
    pub task: tokio::task::JoinHandle<()>,
}

impl JobHandle {
    /// Wraps a spawned task as a registrable job.
    pub fn new(job_id: u64, task: tokio::task::JoinHandle<()>) -> (r: JobHandle)
        ensures
            r.job_id == job_id,
    {
        JobHandle { job_id, task }
    }

    /// Signals the underlying task for cancellation.
    pub fn cancel(&self) {
        self.task.abort();
    }
}

/// The mapping from tenant id to its running job handle. It enforces the
/// registry invariant: at most one live job per tenant id, at any instant.
/// Replacement cancels the predecessor synchronously with the insert.
pub struct JobRegistry {
    entries: Vec<(u64, JobHandle)>,
}

impl JobRegistry {
    /// The registry's contents as a sequence of (tenant id, job) pairs.
    pub closed spec fn entries_seq(&self) -> Seq<(u64, JobHandle)> {
        self.entries@
    }

    /// Well-formed: no tenant id occurs twice.
    pub open spec fn wf(&self) -> bool {
        forall|i: int, j: int|
            0 <= i < j < self.entries_seq().len() ==> (#[trigger] self.entries_seq()[i]).0 != (
            #[trigger] self.entries_seq()[j]).0
    }

    /// Whether some job is registered for `tenant`.
    pub open spec fn spec_contains(&self, tenant: u64) -> bool {
        exists|i: int|
            0 <= i < self.entries_seq().len() && (#[trigger] self.entries_seq()[i]).0 == tenant
    }

    /// Whether `job` is the job registered for `tenant`.
    pub open spec fn has_job(&self, tenant: u64, job: JobHandle) -> bool {
        exists|i: int|
            0 <= i < self.entries_seq().len() && #[trigger] self.entries_seq()[i] == (tenant, job)
    }

    /// An empty registry.
    pub fn new() -> (r: JobRegistry)
        ensures
            r.wf(),
            r.entries_seq() == Seq::<(u64, JobHandle)>::empty(),
            forall|t: u64| !r.spec_contains(t),
    {
        let r = JobRegistry { entries: Vec::new() };
        proof {
            assert(r.entries_seq() =~= Seq::<(u64, JobHandle)>::empty());
        }
        r
    }

    /// The position of `tenant`'s entry, if any.
    fn find(&self, tenant: u64) -> (r: Option<usize>)
        ensures
            match r {
                Option::Some(i) => i < self.entries_seq().len() && self.entries_seq()[i as int].0
                    == tenant,
                Option::None => !self.spec_contains(tenant),
            },
    {
        let mut i: usize = 0;
        while i < self.entries.len()
            invariant
                i <= self.entries_seq().len(),
                forall|k: int| 0 <= k < i ==> (#[trigger] self.entries_seq()[k]).0 != tenant,
            decreases self.entries_seq().len() - i,
        {
            if self.entries[i].0 == tenant {
                return Option::Some(i);
            }
            i = i + 1;
        }
        Option::None
    }

    /// Atomically (with respect to this registry) inserts a job for `tenant`,
    /// cancelling and returning any previously registered job for the same
    /// tenant: no window exists in which two jobs for one tenant are both
    /// registered.
    pub fn register(&mut self, tenant: u64, job: JobHandle) -> (replaced: Option<JobHandle>)
        requires
            old(self).wf(),
        ensures
            final(self).wf(),
            final(self).has_job(tenant, job),
            final(self).spec_contains(tenant),
            forall|j: JobHandle| final(self).has_job(tenant, j) ==> j == job,
            forall|t: u64, j: JobHandle|
                t != tenant ==> (final(self).has_job(t, j) <==> old(self).has_job(t, j)),
            forall|t: u64|
                t != tenant ==> (final(self).spec_contains(t) <==> old(self).spec_contains(t)),
            replaced is Some <==> old(self).spec_contains(tenant),
            replaced is Some ==> old(self).has_job(tenant, replaced->0),
    {
        let found = self.find(tenant);
        match found {
            Option::Some(i) => {
                let ghost before = self.entries_seq();
                let e = self.entries.remove(i);
                e.1.cancel();
                let ghost mid = self.entries_seq();
                self.entries.push((tenant, job));
                proof {
                    let after = self.entries_seq();
                    assert(mid == before.remove(i as int));
                    assert(after == mid.push((tenant, job)));
                    self.lemma_register_shape(before, i as int, tenant, job);
                    assert(before[i as int] == (tenant, e.1));
                }
                Option::Some(e.1)
            },
            Option::None => {
                let ghost before = self.entries_seq();
                self.entries.push((tenant, job));
                proof {
                    let after = self.entries_seq();
                    assert(after == before.push((tenant, job)));
                    assert forall|k: int| 0 <= k < before.len() implies after[k] == before[k] by {}
                    assert(after[before.len() as int] == (tenant, job));
                    assert(final(self).has_job(tenant, job));
                    assert forall|t: u64, j: JobHandle| t != tenant implies (final(self).has_job(
                        t,
                        j,
                    ) <==> old(self).has_job(t, j)) by {
                        if final(self).has_job(t, j) {
                            let k = choose|k: int|
                                0 <= k < after.len() && #[trigger] after[k] == (t, j);
                            assert(k < before.len());
                            assert(before[k] == (t, j));
                        }
                        if old(self).has_job(t, j) {
                            let k = choose|k: int|
                                0 <= k < before.len() && #[trigger] before[k] == (t, j);
                            assert(after[k] == (t, j));
                        }
                    }
                    assert forall|t: u64| t != tenant implies (final(self).spec_contains(t)
                        <==> old(self).spec_contains(t)) by {
                        if final(self).spec_contains(t) {
                            let k = choose|k: int|
                                0 <= k < after.len() && (#[trigger] after[k]).0 == t;
                            assert(k < before.len());
                            assert(before[k].0 == t);
                        }
                        if old(self).spec_contains(t) {
                            let k = choose|k: int|
                                0 <= k < before.len() && (#[trigger] before[k]).0 == t;
                            assert(after[k].0 == t);
                        }
                    }
                    assert forall|j: JobHandle| final(self).has_job(tenant, j) implies j == job by {
                        let k = choose|k: int|
                            0 <= k < after.len() && #[trigger] after[k] == (tenant, j);
                        if k < before.len() {
                            assert(before[k].0 == tenant);
                            assert(old(self).spec_contains(tenant));
                        }
                    }
                }
                Option::None
            },
        }
    }

    /// The registered tenant ids and jobs after a replacement at position `i`.
    proof fn lemma_register_shape(&self, before: Seq<(u64, JobHandle)>, i: int, tenant: u64, job: JobHandle)
        requires
            0 <= i < before.len(),
            before[i].0 == tenant,
            forall|p: int, q: int|
                0 <= p < q < before.len() ==> (#[trigger] before[p]).0 != (#[trigger] before[q]).0,
            self.entries_seq() == before.remove(i).push((tenant, job)),
        ensures
            self.wf(),
            self.has_job(tenant, job),
            self.spec_contains(tenant),
            forall|j: JobHandle| self.has_job(tenant, j) ==> j == job,
            forall|t: u64, j: JobHandle|
                t != tenant ==> (self.has_job(t, j) <==> exists|k: int|
                    0 <= k < before.len() && #[trigger] before[k] == (t, j)),
            forall|t: u64|
                t != tenant ==> (self.spec_contains(t) <==> exists|k: int|
                    0 <= k < before.len() && (#[trigger] before[k]).0 == t),
    {
        let mid = before.remove(i);
        let after = self.entries_seq();
        assert(after == mid.push((tenant, job)));
        assert(mid.len() == before.len() - 1);
        assert forall|k: int| 0 <= k < mid.len() implies mid[k] == (if k < i {
            before[k]
        } else {
            before[k + 1]
        }) by {}
        // no entry of `mid` carries `tenant`
        assert forall|k: int| 0 <= k < mid.len() implies (#[trigger] mid[k]).0 != tenant by {
            if k < i {
                assert(before[k].0 != before[i].0);
            } else {
                assert(before[i].0 != before[k + 1].0);
            }
        }
        // `mid` keeps the pairwise-distinct keys
        assert forall|p: int, q: int| 0 <= p < q < mid.len() implies (#[trigger] mid[p]).0 != (
        #[trigger] mid[q]).0 by {
            if q < i {
            } else if p < i {
                assert(before[p].0 != before[q + 1].0);
            } else {
                assert(before[p + 1].0 != before[q + 1].0);
            }
        }
        assert(after[mid.len() as int] == (tenant, job));
        assert(self.has_job(tenant, job));
        assert forall|j: JobHandle| self.has_job(tenant, j) implies j == job by {
            let k = choose|k: int| 0 <= k < after.len() && #[trigger] after[k] == (tenant, j);
            if k < mid.len() {
                assert(mid[k].0 == tenant);
            }
        }
        assert forall|t: u64, j: JobHandle| t != tenant implies (self.has_job(t, j) <==> exists|
            k: int,
        |
            0 <= k < before.len() && #[trigger] before[k] == (t, j)) by {
            if self.has_job(t, j) {
                let k = choose|k: int| 0 <= k < after.len() && #[trigger] after[k] == (t, j);
                assert(k < mid.len());
                if k < i {
                    assert(before[k] == (t, j));
                } else {
                    assert(before[k + 1] == (t, j));
                }
            }
            if exists|k: int| 0 <= k < before.len() && #[trigger] before[k] == (t, j) {
                let k = choose|k: int| 0 <= k < before.len() && #[trigger] before[k] == (t, j);
                assert(k != i);
                if k < i {
                    assert(after[k] == (t, j));
                } else {
                    assert(mid[k - 1] == before[k]);
                    assert(after[k - 1] == (t, j));
                }
            }
        }
        assert forall|t: u64| t != tenant implies (self.spec_contains(t) <==> exists|k: int|
            0 <= k < before.len() && (#[trigger] before[k]).0 == t) by {
            if self.spec_contains(t) {
                let k = choose|k: int| 0 <= k < after.len() && (#[trigger] after[k]).0 == t;
                assert(k < mid.len());
                if k < i {
                    assert(before[k].0 == t);
                } else {
                    assert(before[k + 1].0 == t);
                }
            }
            if exists|k: int| 0 <= k < before.len() && (#[trigger] before[k]).0 == t {
                let k = choose|k: int| 0 <= k < before.len() && (#[trigger] before[k]).0 == t;
                assert(k != i);
                if k < i {
                    assert(after[k].0 == t);
                } else {
                    assert(mid[k - 1] == before[k]);
                    assert(after[k - 1].0 == t);
                }
            }
        }
        // wf of `after`
        assert forall|p: int, q: int| 0 <= p < q < after.len() implies (#[trigger] after[p]).0 != (
        #[trigger] after[q]).0 by {
            if q < mid.len() {
            } else {
                assert(after[q] == (tenant, job));
                assert(after[p] == mid[p]);
            }
        }
    }

    /// Removes and cancels `tenant`'s job. Idempotent: removing a tenant that
    /// has no registered job changes nothing and is not an error.
    pub fn remove(&mut self, tenant: u64)
        requires
            old(self).wf(),
        ensures
            final(self).wf(),
            !final(self).spec_contains(tenant),
            forall|t: u64, j: JobHandle|
                t != tenant ==> (final(self).has_job(t, j) <==> old(self).has_job(t, j)),
            forall|t: u64|
                t != tenant ==> (final(self).spec_contains(t) <==> old(self).spec_contains(t)),
            !old(self).spec_contains(tenant) ==> *final(self) == *old(self),
    {
        let found = self.find(tenant);
        match found {
            Option::Some(i) => {
                let ghost before = self.entries_seq();
                let e = self.entries.remove(i);
                e.1.cancel();
                proof {
                    let mid = self.entries_seq();
                    assert(mid == before.remove(i as int));
                    assert forall|k: int| 0 <= k < mid.len() implies mid[k] == (if k < i {
                        before[k]
                    } else {
                        before[k + 1]
                    }) by {}
                    assert forall|k: int| 0 <= k < mid.len() implies (#[trigger] mid[k]).0
                        != tenant by {
                        if k < i {
                            assert(before[k].0 != before[i as int].0);
                        } else {
                            assert(before[i as int].0 != before[k + 1].0);
                        }
                    }
                    assert forall|p: int, q: int| 0 <= p < q < mid.len() implies (
                    #[trigger] mid[p]).0 != (#[trigger] mid[q]).0 by {
                        if q < i {
                        } else if p < i {
                            assert(before[p].0 != before[q + 1].0);
                        } else {
                            assert(before[p + 1].0 != before[q + 1].0);
                        }
                    }
                    assert forall|t: u64, j: JobHandle| t != tenant implies (final(self).has_job(
                        t,
                        j,
                    ) <==> old(self).has_job(t, j)) by {
                        if final(self).has_job(t, j) {
                            let k = choose|k: int| 0 <= k < mid.len() && #[trigger] mid[k] == (t, j);
                            if k < i {
                                assert(before[k] == (t, j));
                            } else {
                                assert(before[k + 1] == (t, j));
                            }
                        }
                        if old(self).has_job(t, j) {
                            let k = choose|k: int|
                                0 <= k < before.len() && #[trigger] before[k] == (t, j);
                            assert(k != i);
                            if k < i {
                                assert(mid[k] == (t, j));
                            } else {
                                assert(mid[k - 1] == before[k]);
                            }
                        }
                    }
                    assert forall|t: u64| t != tenant implies (final(self).spec_contains(t)
                        <==> old(self).spec_contains(t)) by {
                        if final(self).spec_contains(t) {
                            let k = choose|k: int|
                                0 <= k < mid.len() && (#[trigger] mid[k]).0 == t;
                            if k < i {
                                assert(before[k].0 == t);
                            } else {
                                assert(before[k + 1].0 == t);
                            }
                        }
                        if old(self).spec_contains(t) {
                            let k = choose|k: int|
                                0 <= k < before.len() && (#[trigger] before[k]).0 == t;
                            assert(k != i);
                            if k < i {
                                assert(mid[k].0 == t);
                            } else {
                                assert(mid[k - 1] == before[k]);
                            }
                        }
                    }
                }
            },
            Option::None => {},
        }
    }

    /// A point-in-time membership check: whether `tenant` currently has a
    /// registered job.
    pub fn is_running(&self, tenant: u64) -> (r: bool)
        ensures
            r == self.spec_contains(tenant),
    {
        let found = self.find(tenant);
        match found {
            Option::Some(_) => true,
            Option::None => false,
        }
    }

    /// The number of registered jobs.
    pub fn len(&self) -> (r: usize)
        ensures
            r == self.entries_seq().len(),
    {
        self.entries.len()
    }
}

impl JobRegistry {
    /// The position of `tenant`'s entry (meaningful when it has one).
    pub open spec fn index_for(&self, tenant: u64) -> int {
        choose|i: int|
            0 <= i < self.entries_seq().len() && (#[trigger] self.entries_seq()[i]).0 == tenant
    }

    /// The job registered for `tenant` (meaningful when one is).
    pub open spec fn job_for(&self, tenant: u64) -> JobHandle {
        self.entries_seq()[self.index_for(tenant)].1
    }

    /// The registry as a mapping from tenant id to its one job.
    pub open spec fn jobs(&self) -> Map<u64, JobHandle> {
        Map::new(|t: u64| self.spec_contains(t), |t: u64| self.job_for(t))
    }
}

/// The registry is a mapping: `job` is registered for `tenant` exactly when
/// the tenant is in the mapping's domain and bound to that job.
pub proof fn lemma_registry_is_a_map(r: &JobRegistry, tenant: u64, job: JobHandle)
    requires
        r.wf(),
    ensures
        r.has_job(tenant, job) <==> (r.jobs().dom().contains(tenant) && r.jobs()[tenant] == job),
{
    if r.has_job(tenant, job) {
        let i = choose|i: int|
            0 <= i < r.entries_seq().len() && #[trigger] r.entries_seq()[i] == (tenant, job);
        assert(r.entries_seq()[i].0 == tenant);
        assert(r.spec_contains(tenant));
        let j = r.index_for(tenant);
        assert(0 <= j < r.entries_seq().len() && r.entries_seq()[j].0 == tenant);
        lemma_at_most_one_job_per_tenant(r, i, j);
        assert(r.job_for(tenant) == job);
    }
    if r.jobs().dom().contains(tenant) && r.jobs()[tenant] == job {
        let j = r.index_for(tenant);
        assert(0 <= j < r.entries_seq().len() && r.entries_seq()[j].0 == tenant);
        assert(r.entries_seq()[j] == (tenant, job));
    }
}

/// At any instant the registry holds at most one job per tenant id: two
/// positions that carry the same tenant id are the same position.
pub proof fn lemma_at_most_one_job_per_tenant(r: &JobRegistry, i: int, j: int)
    requires
        r.wf(),
        0 <= i < r.entries_seq().len(),
        0 <= j < r.entries_seq().len(),
        r.entries_seq()[i].0 == r.entries_seq()[j].0,
    ensures
        i == j,
{
}

/// A registered job is unique: if `j1` and `j2` are both registered for
/// `tenant`, they are the same job.
pub proof fn lemma_registered_job_unique(r: &JobRegistry, tenant: u64, j1: JobHandle, j2: JobHandle)
    requires
        r.wf(),
        r.has_job(tenant, j1),
        r.has_job(tenant, j2),
    ensures
        j1 == j2,
{
    let k1 = choose|k: int|
        0 <= k < r.entries_seq().len() && #[trigger] r.entries_seq()[k] == (tenant, j1);
    let k2 = choose|k: int|
        0 <= k < r.entries_seq().len() && #[trigger] r.entries_seq()[k] == (tenant, j2);
    lemma_at_most_one_job_per_tenant(r, k1, k2);
}

} // verus!
