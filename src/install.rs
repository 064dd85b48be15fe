//! The install pipeline's decisions: which specification to resolve next
//! (each cache key once), whether to unpack a tarball (each version once),
//! which dependencies follow, and the deduplicated result.
use vstd::prelude::*;
use vstd::string::*;
use crate::claims::ClaimSet;
use crate::package::{cache_key_of, opt_view, InstallPackage, PackageJson};
use crate::resolved::{version_key, ResolvedArtifact};

verus! {

/// The key of a specification, over its fields.
pub open spec fn spec_key(p: InstallPackage) -> Seq<char> {
    cache_key_of(p.name@, opt_view(p.version))
}

/// The specifications that an artifact's dependencies call for, in order:
/// each `(name, range)` as a non-dev spec with that range.
pub open spec fn dependency_specs_match(a: ResolvedArtifact, specs: Seq<InstallPackage>) -> bool {
    let deps: Seq<(String, String)> = match a.package {
        Some(m) => match m.dependencies {
            Some(d) => d@,
            None => Seq::empty(),
        },
        None => Seq::empty(),
    };
    &&& specs.len() == deps.len()
    &&& forall|i: int|
        0 <= i < deps.len() ==> (#[trigger] specs[i]).name@ == deps[i].0@ && opt_view(specs[i].version)
            == Some(deps[i].1@) && !specs[i].is_dev
}

/// Concurrency for the roots: twice the logical CPUs, at least 2; 4 when
/// the CPU count is unknown.
pub open spec fn root_concurrency(cpus: Option<usize>) -> int {
    match cpus {
        Some(n) => if n == 0 {
            2
        } else if 2 * n > usize::MAX {
            usize::MAX as int
        } else {
            2 * n
        },
        None => 4,
    }
}

/// Concurrency for a package's dependencies.
pub const DEPENDENCY_CONCURRENCY: usize = 10;

/// Whether a tarball must be unpacked: no earlier decision for its version
/// in this run, and its directory is not on disk.
pub open spec fn unpack_needed(decided_before: bool, dir_exists: bool) -> bool {
    !decided_before && !dir_exists
}

/// Idempotence: once the cache holds a version's tarball and unpacked
/// directory, a run fetches and unpacks nothing for it, whatever was
/// claimed before.
pub proof fn lemma_warm_cache_is_idle(claimed_before: bool, decided_before: bool)
    ensures
        !crate::resolver::fetch_needed(claimed_before, true),
        !unpack_needed(decided_before, true),
{
}

/// Every artifact that a run completed had its unpack decided in that run:
/// unpacked by it, or found already on disk.
pub proof fn lemma_completed_were_unpacked(pipe: &InstallPipe, i: int)
    requires
        pipe.wf(),
        0 <= i < pipe.completed().len(),
    ensures
        pipe.unpack_keys().contains(
            version_key(pipe.completed()[i].name@, pipe.completed()[i].version@),
        ),
{
}

/// State of one install run.
pub struct InstallPipe {
    packages: Vec<InstallPackage>,
    queue: Vec<InstallPackage>,
    head: usize,
    locked_packages: ClaimSet,
    unzip_locks: ClaimSet,
    resolved: Vec<ResolvedArtifact>,
}

impl InstallPipe {
    /// The root specifications of the run.
    pub closed spec fn roots(&self) -> Seq<InstallPackage> {
        self.packages@
    }

    /// Specifications waiting to be looked at, in order.
    pub closed spec fn pending(&self) -> Seq<InstallPackage> {
        self.queue@.subrange(self.head as int, self.queue@.len() as int)
    }

    /// Cache keys whose resolution has been handed out.
    pub closed spec fn claimed_keys(&self) -> Set<Seq<char>> {
        self.locked_packages@
    }

    /// `{name}@{version}` keys whose unpack has been decided.
    pub closed spec fn unpack_keys(&self) -> Set<Seq<char>> {
        self.unzip_locks@
    }

    /// Artifacts completed so far, in order.
    pub closed spec fn completed(&self) -> Seq<ResolvedArtifact> {
        self.resolved@
    }

    pub closed spec fn wf(&self) -> bool {
        &&& self.head <= self.queue@.len()
        &&& forall|i: int|
            0 <= i < self.resolved@.len() ==> self.unzip_locks@.contains(
                version_key((#[trigger] self.resolved@[i]).name@, self.resolved@[i].version@),
            )
    }

    /// A run over `packages`: every root pending, nothing claimed.
    pub fn new(packages: Vec<InstallPackage>) -> (r: Self)
        ensures
            r.wf(),
            r.roots() == packages@,
            r.pending() == packages@,
            r.claimed_keys() == Set::<Seq<char>>::empty(),
            r.unpack_keys() == Set::<Seq<char>>::empty(),
            r.completed() == Seq::<ResolvedArtifact>::empty(),
    {
        let mut queue: Vec<InstallPackage> = Vec::new();
        let mut i: usize = 0;
        while i < packages.len()
            invariant
                i <= packages@.len(),
                queue@ == packages@.subrange(0, i as int),
            decreases packages.len() - i,
        {
            queue.push(packages[i].duplicate());
            i += 1;
            assert(queue@ =~= packages@.subrange(0, i as int));
        }
        assert(packages@.subrange(0, i as int) =~= packages@);
        let r = InstallPipe {
            packages,
            queue,
            head: 0,
            locked_packages: ClaimSet::new(),
            unzip_locks: ClaimSet::new(),
            resolved: Vec::new(),
        };
        assert(r.pending() =~= packages@);
        r
    }

    /// The next specification to resolve. Pending specifications whose key
    /// is already claimed are dropped (their work is done or under way);
    /// the first with a free key is claimed and returned. `None` when no
    /// pending specification has a free key.
    pub fn next_package(&mut self) -> (r: Option<InstallPackage>)
        requires
            old(self).wf(),
        ensures
            final(self).wf(),
            final(self).roots() == old(self).roots(),
            final(self).unpack_keys() == old(self).unpack_keys(),
            final(self).completed() == old(self).completed(),
            match r {
                Some(p) => exists|k: int|
                    0 <= k < old(self).pending().len() && old(self).pending()[k] == p
                        && final(self).pending() == old(self).pending().subrange(
                        k + 1,
                        old(self).pending().len() as int,
                    ) && (forall|m: int|
                        0 <= m < k ==> old(self).claimed_keys().contains(
                            #[trigger] spec_key(old(self).pending()[m]),
                        )),
                None => (forall|m: int|
                    0 <= m < old(self).pending().len() ==> old(self).claimed_keys().contains(
                        #[trigger] spec_key(old(self).pending()[m]),
                    )) && final(self).pending().len() == 0,
            },
            r matches Some(p) ==> !old(self).claimed_keys().contains(spec_key(p))
                && final(self).claimed_keys() == old(self).claimed_keys().insert(spec_key(p)),
            r is None ==> final(self).claimed_keys() == old(self).claimed_keys(),
    {
        let ghost h0 = self.head as int;
        let ghost pend0 = self.pending();
        while self.head < self.queue.len()
            invariant
                h0 <= self.head <= self.queue@.len(),
                self.queue@ == old(self).queue@,
                self.packages@ == old(self).packages@,
                self.locked_packages@ == old(self).locked_packages@,
                self.unzip_locks@ == old(self).unzip_locks@,
                self.resolved@ == old(self).resolved@,
                pend0 == self.queue@.subrange(h0, self.queue@.len() as int),
                h0 == old(self).head,
                old(self).wf(),
                forall|m: int|
                    h0 <= m < self.head ==> self.locked_packages@.contains(
                        #[trigger] spec_key(self.queue@[m]),
                    ),
            decreases self.queue.len() - self.head,
        {
            let h = self.head;
            let key = self.queue[h].to_cache_key();
            self.head = h + 1;
            if self.locked_packages.claim(key.as_str()) {
                let p = self.queue[h].duplicate();
                proof {
                    let k = h - h0;
                    assert(pend0[k] == p);
                    assert(self.pending() =~= pend0.subrange(k + 1, pend0.len() as int));
                    assert(self.resolved@ == old(self).resolved@);
                    assert(self.unzip_locks@ == old(self).unzip_locks@);
                    assert forall|m: int| 0 <= m < k implies old(self).claimed_keys().contains(
                        #[trigger] spec_key(pend0[m]),
                    ) by {
                        assert(pend0[m] == self.queue@[h0 + m]);
                    }
                    assert(0 <= k < old(self).pending().len() && old(self).pending()[k] == p
                        && self.pending() == old(self).pending().subrange(
                        k + 1,
                        old(self).pending().len() as int,
                    ) && (forall|m: int|
                        0 <= m < k ==> old(self).claimed_keys().contains(
                            #[trigger] spec_key(old(self).pending()[m]),
                        )));
                }
                return Some(p);
            }
        }
        proof {
            assert forall|m: int| 0 <= m < pend0.len() implies old(self).claimed_keys().contains(
                #[trigger] spec_key(pend0[m]),
            ) by {
                assert(pend0[m] == self.queue@[h0 + m]);
            }
        }
        None
    }

    /// Decides the unpack of a resolved version: true when this is the first
    /// decision for `{name}@{version}` and its directory is not on disk.
    pub fn claim_unpack(&mut self, artifact: &ResolvedArtifact, dir_exists: bool) -> (r: bool)
        requires
            old(self).wf(),
        ensures
            final(self).wf(),
            r == unpack_needed(
                old(self).unpack_keys().contains(version_key(artifact.name@, artifact.version@)),
                dir_exists,
            ),
            final(self).unpack_keys() == old(self).unpack_keys().insert(
                version_key(artifact.name@, artifact.version@),
            ),
            final(self).pending() == old(self).pending(),
            final(self).claimed_keys() == old(self).claimed_keys(),
            final(self).completed() == old(self).completed(),
            final(self).roots() == old(self).roots(),
    {
        let key = artifact.version_key();
        let first = self.unzip_locks.claim(key.as_str());
        first && !dir_exists
    }

    /// Records a resolved artifact whose unpack has been decided, and
    /// queues the specifications of its dependencies.
    pub fn complete(&mut self, artifact: ResolvedArtifact)
        requires
            old(self).wf(),
            old(self).unpack_keys().contains(version_key(artifact.name@, artifact.version@)),
        ensures
            final(self).wf(),
            final(self).completed() == old(self).completed().push(artifact),
            exists|deps: Seq<InstallPackage>|
                dependency_specs_match(artifact, deps) && final(self).pending() == old(
                    self,
                ).pending() + deps,
            final(self).claimed_keys() == old(self).claimed_keys(),
            final(self).unpack_keys() == old(self).unpack_keys(),
            final(self).roots() == old(self).roots(),
    {
        let ghost q0 = self.queue@;
        let ghost pend0 = self.pending();
        match &artifact.package {
            Some(m) => match &m.dependencies {
                Some(deps) => {
                    let mut i: usize = 0;
                    while i < deps.len()
                        invariant
                            i <= deps@.len(),
                            self.head <= q0.len(),
                            self.head == old(self).head,
                            self.queue@.len() == q0.len() + i,
                            self.queue@.subrange(0, q0.len() as int) == q0,
                            self.packages@ == old(self).packages@,
                            self.locked_packages@ == old(self).locked_packages@,
                            self.unzip_locks@ == old(self).unzip_locks@,
                            self.resolved@ == old(self).resolved@,
                            forall|j: int|
                                0 <= j < i ==> (#[trigger] self.queue@[q0.len() + j]).name@
                                    == deps@[j].0@ && opt_view(self.queue@[q0.len() + j].version)
                                    == Some(deps@[j].1@) && !self.queue@[q0.len() + j].is_dev,
                        decreases deps.len() - i,
                    {
                        let spec = InstallPackage::new(
                            deps[i].0.clone(),
                            Some(deps[i].1.clone()),
                            false,
                        );
                        self.queue.push(spec);
                        proof {
                            assert forall|j: int| 0 <= j <= i implies (#[trigger] self.queue@[q0.len()
                                + j]).name@ == deps@[j].0@ && opt_view(
                                self.queue@[q0.len() + j].version,
                            ) == Some(deps@[j].1@) && !self.queue@[q0.len() + j].is_dev by {}
                            assert(self.queue@.subrange(0, q0.len() as int) =~= q0);
                        }
                        i += 1;
                    }
                    proof {
                        let specs = self.queue@.subrange(q0.len() as int, self.queue@.len() as int);
                        assert(self.pending() =~= pend0 + specs);
                        assert forall|j: int| 0 <= j < specs.len() implies specs[j] == self.queue@[q0.len() + j] by {}
                        assert(dependency_specs_match(artifact, specs));
                    }
                },
                None => {
                    proof {
                        assert(self.pending() =~= pend0 + Seq::<InstallPackage>::empty());
                        assert(dependency_specs_match(artifact, Seq::<InstallPackage>::empty()));
                    }
                },
            },
            None => {
                proof {
                    assert(self.pending() =~= pend0 + Seq::<InstallPackage>::empty());
                    assert(dependency_specs_match(artifact, Seq::<InstallPackage>::empty()));
                }
            },
        }
        self.resolved.push(artifact);
    }

    /// The completed artifacts, one per `{name}@{version}`, in completion
    /// order.
    pub fn into_artifacts(self) -> (r: Vec<ResolvedArtifact>)
        ensures
            forall|i: int| 0 <= i < r@.len() ==> self.completed().contains(#[trigger] r@[i]),
            forall|i: int, k: int|
                0 <= i < k < r@.len() ==> version_key(r@[i].name@, r@[i].version@) != version_key(
                    r@[k].name@,
                    r@[k].version@,
                ),
            forall|j: int|
                0 <= j < self.completed().len() ==> exists|i: int|
                    0 <= i < r@.len() && version_key(r@[i].name@, r@[i].version@) == version_key(
                        (#[trigger] self.completed()[j]).name@,
                        self.completed()[j].version@,
                    ),
    {
        let ghost all = self.resolved@;
        let ghost comp = self.completed();
        assert(comp == all);
        let mut rest = self.resolved;
        let mut seen = ClaimSet::new();
        let mut out: Vec<ResolvedArtifact> = Vec::new();
        let ghost mut taken: int = 0;
        let ghost mut src: Seq<int> = Seq::empty();
        while rest.len() > 0
            invariant
                0 <= taken <= all.len(),
                rest@ == all.subrange(taken, all.len() as int),
                src.len() == out@.len(),
                forall|i: int| 0 <= i < out@.len() ==> 0 <= #[trigger] src[i] < taken && all[src[i]] == out@[i],
                forall|i: int, k: int|
                    0 <= i < k < out@.len() ==> version_key(out@[i].name@, out@[i].version@)
                        != version_key(out@[k].name@, out@[k].version@),
                forall|q: Seq<char>|
                    seen@.contains(q) <==> exists|i: int|
                        0 <= i < out@.len() && version_key(out@[i].name@, out@[i].version@) == q,
                forall|j: int|
                    0 <= j < taken ==> seen@.contains(
                        version_key((#[trigger] all[j]).name@, all[j].version@),
                    ),
            decreases rest.len(),
        {
            let a = rest.remove(0);
            assert(a == all[taken]);
            let key = a.version_key();
            let ghost seen0 = seen@;
            if seen.claim(key.as_str()) {
                let ghost out0 = out@;
                out.push(a);
                proof {
                    assert(out@[out@.len() - 1] == all[taken]);
                    let src0 = src;
                    src = src.push(taken);
                    assert forall|i: int| 0 <= i < out@.len() implies 0 <= #[trigger] src[i]
                        < taken + 1 && all[src[i]] == out@[i] by {
                        if i < out@.len() - 1 {
                            assert(src[i] == src0[i]);
                            assert(out@[i] == out0[i]);
                            assert(0 <= src0[i] < taken && all[src0[i]] == out0[i]);
                        }
                    }
                    assert forall|i: int, k: int| 0 <= i < k < out@.len() implies version_key(
                        out@[i].name@,
                        out@[i].version@,
                    ) != version_key(out@[k].name@, out@[k].version@) by {
                        if k == out@.len() - 1 {
                            assert(out@[i] == out0[i]);
                            assert(seen0.contains(version_key(out0[i].name@, out0[i].version@)));
                        } else {
                            assert(out@[i] == out0[i]);
                            assert(out@[k] == out0[k]);
                        }
                    }
                    assert forall|q: Seq<char>| seen@.contains(q) <==> exists|i: int|
                        0 <= i < out@.len() && version_key(out@[i].name@, out@[i].version@) == q by {
                        if seen@.contains(q) && q != key@ {
                            let i = choose|i: int|
                                0 <= i < out0.len() && version_key(out0[i].name@, out0[i].version@)
                                    == q;
                            assert(out@[i] == out0[i]);
                        }
                        if q == key@ {
                            assert(out@[out@.len() - 1] == a);
                        }
                        if exists|i: int|
                            0 <= i < out@.len() && version_key(out@[i].name@, out@[i].version@) == q {
                            let i = choose|i: int|
                                0 <= i < out@.len() && version_key(out@[i].name@, out@[i].version@)
                                    == q;
                            if i < out0.len() {
                                assert(out@[i] == out0[i]);
                            }
                        }
                    }
                }
            }
            proof {
                taken = taken + 1;
                assert(rest@ =~= all.subrange(taken, all.len() as int));
            }
        }
        assert(taken == all.len());
        assert forall|i: int| 0 <= i < out@.len() implies comp.contains(#[trigger] out@[i]) by {
            assert(0 <= src[i] < taken && all[src[i]] == out@[i]);
            assert(comp[src[i]] == out@[i]);
            assert(0 <= src[i] < comp.len());
        }
        out
    }
}

/// The concurrency cap for root packages.
pub fn root_concurrency_limit(cpus: Option<usize>) -> (r: usize)
    ensures
        r == root_concurrency(cpus),
{
    match cpus {
        Some(n) => if n == 0 {
            2
        } else if n > usize::MAX / 2 {
            usize::MAX
        } else {
            2 * n
        },
        None => 4,
    }
}

} // verus!
