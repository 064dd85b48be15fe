//! The linker's plan: the directories and symlinks that hydrate each cached
//! package's `node_modules`, link the roots into the project, and expose
//! binaries. The plan is a list of steps that the caller carries out in
//! order.
use vstd::prelude::*;
use vstd::string::*;
use crate::cache::{package_dir, package_dir_of};
use crate::package::{opt_view, InstallPackage, PackageBin};
use crate::resolved::ResolvedArtifact;
use crate::semver::{max_candidate, range_view, select_max_satisfying, texts_view};
use crate::text::{join2, join3, same_text};

verus! {

/// One step of the plan, over plain paths.
#[derive(Debug, PartialEq)]
pub enum LinkAction {
    /// Create a directory and its missing parents.
    CreateDir { path: String },
    /// Create the parents of `link`, remove whatever is at `link` (a
    /// symlink is unlinked, a directory removed), then make `link` a symlink
    /// to `target`.
    Symlink { target: String, link: String },
    /// Best effort: mark the file executable (mode 0o755 on Unix).
    MakeExecutable { path: String },
}

/// A step, viewed.
pub enum LinkStep {
    CreateDir(Seq<char>),
    Symlink(Seq<char>, Seq<char>),
    MakeExecutable(Seq<char>),
}

impl View for LinkAction {
    type V = LinkStep;

    open spec fn view(&self) -> LinkStep {
        match self {
            LinkAction::CreateDir { path } => LinkStep::CreateDir(path@),
            LinkAction::Symlink { target, link } => LinkStep::Symlink(target@, link@),
            LinkAction::MakeExecutable { path } => LinkStep::MakeExecutable(path@),
        }
    }
}

/// A list of steps, viewed.
pub open spec fn steps_of(v: Seq<LinkAction>) -> Seq<LinkStep> {
    v.map_values(|a: LinkAction| a@)
}

/// `a/b`
pub open spec fn child(a: Seq<char>, b: Seq<char>) -> Seq<char> {
    a + "/"@ + b
}

/// The executables of an artifact as (name, path in the package): a single
/// path is exposed under the artifact's name.
pub open spec fn bin_entries(a: ResolvedArtifact) -> Seq<(Seq<char>, Seq<char>)> {
    match a.package {
        Some(m) => match m.bin {
            Some(PackageBin::String(p)) => seq![(a.name@, p@)],
            Some(PackageBin::Named(v)) => v@.map_values(|e: (String, String)| (e.0@, e.1@)),
            None => Seq::empty(),
        },
        None => Seq::empty(),
    }
}

/// The steps for one executable: link `<nm>/.bin/{bin}` to
/// `<nm>/{package}/{path}`, and mark the script executable.
pub open spec fn bin_entry_steps(pkg: Seq<char>, nm: Seq<char>, e: (Seq<char>, Seq<char>)) -> Seq<
    LinkStep,
> {
    let source = child(child(nm, pkg), e.1);
    seq![LinkStep::Symlink(source, child(child(nm, ".bin"@), e.0)), LinkStep::MakeExecutable(source)]
}

/// The steps for the first `n` executables.
pub open spec fn bin_prefix_steps(pkg: Seq<char>, nm: Seq<char>, es: Seq<(Seq<char>, Seq<char>)>, n: int) -> Seq<
    LinkStep,
>
    decreases n,
{
    if n <= 0 {
        Seq::empty()
    } else {
        bin_prefix_steps(pkg, nm, es, n - 1) + bin_entry_steps(pkg, nm, es[n - 1])
    }
}

/// The steps that expose an artifact's executables in `<nm>/.bin`.
pub open spec fn bin_steps(a: ResolvedArtifact, nm: Seq<char>) -> Seq<LinkStep> {
    let has_bin = match a.package {
        Some(m) => m.bin is Some,
        None => false,
    };
    if has_bin {
        seq![LinkStep::CreateDir(child(nm, ".bin"@))] + bin_prefix_steps(
            a.name@,
            nm,
            bin_entries(a),
            bin_entries(a).len() as int,
        )
    } else {
        Seq::empty()
    }
}

/// Which artifacts carry a name.
pub open spec fn named(arts: Seq<ResolvedArtifact>, name: Seq<char>) -> Seq<bool> {
    Seq::new(arts.len(), |j: int| arts[j].name@ == name)
}

/// The version texts of the artifacts.
pub open spec fn versions_of(arts: Seq<ResolvedArtifact>) -> Seq<Seq<char>> {
    arts.map_values(|a: ResolvedArtifact| a.version@)
}

/// The artifact that a (name, range) links to: the highest version of that
/// name that the range admits.
pub open spec fn best_match(arts: Seq<ResolvedArtifact>, name: Seq<char>, range: Option<Seq<char>>) -> Option<
    int,
> {
    max_candidate(range, versions_of(arts), named(arts, name))
}

/// `<root>/{name}-{version}/package/node_modules` of an artifact.
pub open spec fn modules_dir(root: Seq<char>, a: ResolvedArtifact) -> Seq<char> {
    package_dir(root, a.name@, a.version@) + "/node_modules"@
}

/// The steps for one dependency `(name, range)` of a package whose
/// `node_modules` is `nm`.
pub open spec fn dep_steps(
    arts: Seq<ResolvedArtifact>,
    root: Seq<char>,
    nm: Seq<char>,
    dep: (Seq<char>, Seq<char>),
) -> Seq<LinkStep> {
    match best_match(arts, dep.0, Some(dep.1)) {
        Some(i) => seq![
            LinkStep::Symlink(package_dir(root, arts[i].name@, arts[i].version@), child(nm, dep.0)),
        ] + bin_steps(arts[i], nm),
        None => Seq::empty(),
    }
}

/// The steps for the first `n` dependencies.
pub open spec fn deps_prefix_steps(
    arts: Seq<ResolvedArtifact>,
    root: Seq<char>,
    nm: Seq<char>,
    deps: Seq<(Seq<char>, Seq<char>)>,
    n: int,
) -> Seq<LinkStep>
    decreases n,
{
    if n <= 0 {
        Seq::empty()
    } else {
        deps_prefix_steps(arts, root, nm, deps, n - 1) + dep_steps(arts, root, nm, deps[n - 1])
    }
}

/// The dependencies of an artifact, viewed.
pub open spec fn deps_of(a: ResolvedArtifact) -> Option<Seq<(Seq<char>, Seq<char>)>> {
    match a.package {
        Some(m) => match m.dependencies {
            Some(d) => Some(d@.map_values(|e: (String, String)| (e.0@, e.1@))),
            None => None,
        },
        None => None,
    }
}

/// The steps that hydrate one artifact's `node_modules`.
pub open spec fn hydrate_steps(arts: Seq<ResolvedArtifact>, root: Seq<char>, a: ResolvedArtifact) -> Seq<
    LinkStep,
> {
    match deps_of(a) {
        Some(deps) => seq![LinkStep::CreateDir(modules_dir(root, a))] + deps_prefix_steps(
            arts,
            root,
            modules_dir(root, a),
            deps,
            deps.len() as int,
        ),
        None => Seq::empty(),
    }
}

/// The steps that link one root package into the project's `nm`.
pub open spec fn root_steps(
    arts: Seq<ResolvedArtifact>,
    root: Seq<char>,
    nm: Seq<char>,
    p: InstallPackage,
) -> Seq<LinkStep> {
    match best_match(arts, p.name@, opt_view(p.version)) {
        Some(i) => seq![
            LinkStep::Symlink(package_dir(root, arts[i].name@, arts[i].version@), child(nm, arts[i].name@)),
        ] + bin_steps(arts[i], nm),
        None => Seq::empty(),
    }
}

/// Hydration steps of the first `n` artifacts.
pub open spec fn hydrate_prefix_steps(arts: Seq<ResolvedArtifact>, root: Seq<char>, n: int) -> Seq<
    LinkStep,
>
    decreases n,
{
    if n <= 0 {
        Seq::empty()
    } else {
        hydrate_prefix_steps(arts, root, n - 1) + hydrate_steps(arts, root, arts[n - 1])
    }
}

/// Root-linking steps of the first `n` roots.
pub open spec fn roots_prefix_steps(
    arts: Seq<ResolvedArtifact>,
    root: Seq<char>,
    nm: Seq<char>,
    roots: Seq<InstallPackage>,
    n: int,
) -> Seq<LinkStep>
    decreases n,
{
    if n <= 0 {
        Seq::empty()
    } else {
        roots_prefix_steps(arts, root, nm, roots, n - 1) + root_steps(arts, root, nm, roots[n - 1])
    }
}

/// The whole plan: create the project's `node_modules`, hydrate every
/// artifact, then link every root.
pub open spec fn plan_steps(
    arts: Seq<ResolvedArtifact>,
    roots: Seq<InstallPackage>,
    root: Seq<char>,
    project: Seq<char>,
) -> Seq<LinkStep> {
    let nm = child(project, "node_modules"@);
    seq![LinkStep::CreateDir(nm)] + hydrate_prefix_steps(arts, root, arts.len() as int)
        + roots_prefix_steps(arts, root, nm, roots, roots.len() as int)
}

/// `small` occurs in `big` at `off`.
pub open spec fn occurs_at(big: Seq<LinkStep>, small: Seq<LinkStep>, off: int) -> bool {
    0 <= off && off + small.len() <= big.len() && big.subrange(off, off + small.len()) == small
}

proof fn lemma_bin_prefix_contains(
    pkg: Seq<char>,
    nm: Seq<char>,
    es: Seq<(Seq<char>, Seq<char>)>,
    n: int,
    j: int,
)
    requires
        0 <= j < n <= es.len(),
    ensures
        bin_prefix_steps(pkg, nm, es, n).contains(
            LinkStep::Symlink(child(child(nm, pkg), es[j].1), child(child(nm, ".bin"@), es[j].0)),
        ),
    decreases n,
{
    let prev = bin_prefix_steps(pkg, nm, es, n - 1);
    let cur = bin_prefix_steps(pkg, nm, es, n);
    let step = LinkStep::Symlink(child(child(nm, pkg), es[j].1), child(child(nm, ".bin"@), es[j].0));
    if j == n - 1 {
        assert(cur[prev.len() as int] == step);
    } else {
        lemma_bin_prefix_contains(pkg, nm, es, n - 1, j);
        let k = choose|k: int| 0 <= k < prev.len() && prev[k] == step;
        assert(cur[k] == step);
    }
}

/// Every executable that an artifact declares is exposed: the steps hold a
/// symlink from `<nm>/.bin/{bin}` to `<nm>/{package}/{path}`.
pub proof fn lemma_bin_linked(a: ResolvedArtifact, nm: Seq<char>, j: int)
    requires
        a.package matches Some(m) && m.bin is Some,
        0 <= j < bin_entries(a).len(),
    ensures
        bin_steps(a, nm).contains(
            LinkStep::Symlink(
                child(child(nm, a.name@), bin_entries(a)[j].1),
                child(child(nm, ".bin"@), bin_entries(a)[j].0),
            ),
        ),
{
    let es = bin_entries(a);
    lemma_bin_prefix_contains(a.name@, nm, es, es.len() as int, j);
    let rest = bin_prefix_steps(a.name@, nm, es, es.len() as int);
    let step = LinkStep::Symlink(child(child(nm, a.name@), es[j].1), child(child(nm, ".bin"@), es[j].0));
    let k = choose|k: int| 0 <= k < rest.len() && rest[k] == step;
    let all = seq![LinkStep::CreateDir(child(nm, ".bin"@))] + rest;
    assert(all == bin_steps(a, nm));
    assert(all[k + 1] == step);
}

proof fn lemma_deps_prefix_contains(
    arts: Seq<ResolvedArtifact>,
    root: Seq<char>,
    nm: Seq<char>,
    deps: Seq<(Seq<char>, Seq<char>)>,
    n: int,
    j: int,
    i: int,
)
    requires
        0 <= j < n <= deps.len(),
        best_match(arts, deps[j].0, Some(deps[j].1)) == Some(i),
    ensures
        deps_prefix_steps(arts, root, nm, deps, n).contains(
            LinkStep::Symlink(package_dir(root, arts[i].name@, arts[i].version@), child(nm, deps[j].0)),
        ),
    decreases n,
{
    let prev = deps_prefix_steps(arts, root, nm, deps, n - 1);
    let cur = deps_prefix_steps(arts, root, nm, deps, n);
    let step = LinkStep::Symlink(package_dir(root, arts[i].name@, arts[i].version@), child(nm, deps[j].0));
    if j == n - 1 {
        assert(dep_steps(arts, root, nm, deps[j])[0] == step);
        assert(cur[prev.len() as int] == step);
    } else {
        lemma_deps_prefix_contains(arts, root, nm, deps, n - 1, j, i);
        let k = choose|k: int| 0 <= k < prev.len() && prev[k] == step;
        assert(cur[k] == step);
    }
}

/// Each dependency of an artifact that has a best match among the
/// artifacts is linked in the artifact's own `node_modules` to that match's
/// package directory; one without a match gets no step.
pub proof fn lemma_dependency_linked(arts: Seq<ResolvedArtifact>, root: Seq<char>, a: ResolvedArtifact, j: int)
    requires
        deps_of(a) matches Some(deps) && 0 <= j < deps.len(),
    ensures
        ({
            let dep = deps_of(a).unwrap()[j];
            match best_match(arts, dep.0, Some(dep.1)) {
                Some(i) => hydrate_steps(arts, root, a).contains(
                    LinkStep::Symlink(
                        package_dir(root, arts[i].name@, arts[i].version@),
                        child(modules_dir(root, a), dep.0),
                    ),
                ),
                None => dep_steps(arts, root, modules_dir(root, a), dep).len() == 0,
            }
        }),
{
    let deps = deps_of(a).unwrap();
    let nm = modules_dir(root, a);
    if let Some(i) = best_match(arts, deps[j].0, Some(deps[j].1)) {
        lemma_deps_prefix_contains(arts, root, nm, deps, deps.len() as int, j, i);
        let rest = deps_prefix_steps(arts, root, nm, deps, deps.len() as int);
        let step = LinkStep::Symlink(package_dir(root, arts[i].name@, arts[i].version@), child(nm, deps[j].0));
        let k = choose|k: int| 0 <= k < rest.len() && rest[k] == step;
        let all = seq![LinkStep::CreateDir(nm)] + rest;
        assert(all == hydrate_steps(arts, root, a));
        assert(all[k + 1] == step);
    }
}

proof fn lemma_roots_prefix_contains(
    arts: Seq<ResolvedArtifact>,
    root: Seq<char>,
    nm: Seq<char>,
    roots: Seq<InstallPackage>,
    n: int,
    k: int,
)
    requires
        0 <= k < n <= roots.len(),
    ensures
        exists|off: int|
            #[trigger] occurs_at(
                roots_prefix_steps(arts, root, nm, roots, n),
                root_steps(arts, root, nm, roots[k]),
                off,
            ),
    decreases n,
{
    let prev = roots_prefix_steps(arts, root, nm, roots, n - 1);
    let cur = roots_prefix_steps(arts, root, nm, roots, n);
    let rs = root_steps(arts, root, nm, roots[k]);
    if k == n - 1 {
        assert(cur.subrange(prev.len() as int, prev.len() + rs.len() as int) =~= rs);
        assert(occurs_at(cur, rs, prev.len() as int));
    } else {
        lemma_roots_prefix_contains(arts, root, nm, roots, n - 1, k);
        let off = choose|off: int| #[trigger] occurs_at(prev, rs, off);
        assert(cur.subrange(off, off + rs.len()) =~= prev.subrange(off, off + rs.len()));
        assert(occurs_at(cur, rs, off));
    }
}

/// Every root that has a matching artifact is linked: the plan holds a
/// symlink from `<project>/node_modules/{name}` to that artifact's package
/// directory in the cache, and the artifact is one of those installed.
pub proof fn lemma_root_linked(
    arts: Seq<ResolvedArtifact>,
    roots: Seq<InstallPackage>,
    root: Seq<char>,
    project: Seq<char>,
    k: int,
)
    requires
        0 <= k < roots.len(),
        best_match(arts, roots[k].name@, opt_view(roots[k].version)) is Some,
    ensures
        ({
            let i = best_match(arts, roots[k].name@, opt_view(roots[k].version)).unwrap();
            &&& 0 <= i < arts.len()
            &&& plan_steps(arts, roots, root, project).contains(
                LinkStep::Symlink(
                    package_dir(root, arts[i].name@, arts[i].version@),
                    child(child(project, "node_modules"@), arts[i].name@),
                ),
            )
        }),
{
    let nm = child(project, "node_modules"@);
    let i = best_match(arts, roots[k].name@, opt_view(roots[k].version)).unwrap();
    let texts = versions_of(arts);
    let el = named(arts, roots[k].name@);
    let rv = opt_view(roots[k].version);
    assert(exists|j: int| crate::semver::is_max_candidate(rv, texts, el, j));
    assert(crate::semver::is_max_candidate(rv, texts, el, i));
    lemma_roots_prefix_contains(arts, root, nm, roots, roots.len() as int, k);
    let rs = root_steps(arts, root, nm, roots[k]);
    let rp = roots_prefix_steps(arts, root, nm, roots, roots.len() as int);
    let off = choose|off: int| #[trigger] occurs_at(rp, rs, off);
    let step = LinkStep::Symlink(package_dir(root, arts[i].name@, arts[i].version@), child(nm, arts[i].name@));
    assert(rs[0] == step);
    assert(rp[off] == step) by {
        assert(rp.subrange(off, off + rs.len())[0] == rp[off]);
    }
    let head = seq![LinkStep::CreateDir(nm)] + hydrate_prefix_steps(arts, root, arts.len() as int);
    let all = plan_steps(arts, roots, root, project);
    assert(all == head + rp);
    assert(all[head.len() + off] == step);
}

/// Links resolved artifacts into the cache and the project.
pub struct LinkerPipe {
    artifacts: Vec<ResolvedArtifact>,
    root_packages: Vec<InstallPackage>,
}

/// Appends the steps for one executable.
fn push_bin_entry(actions: &mut Vec<LinkAction>, pkg: &str, nm: &str, bin_name: &str, bin_path: &str)
    ensures
        steps_of(final(actions)@) == steps_of(old(actions)@) + bin_entry_steps(
            pkg@,
            nm@,
            (bin_name@, bin_path@),
        ),
{
    let pkg_dir = join3(nm, "/", pkg);
    let source = join3(pkg_dir.as_str(), "/", bin_path);
    let bin_dir = join3(nm, "/", ".bin");
    let target = join3(bin_dir.as_str(), "/", bin_name);
    let source2 = join3(pkg_dir.as_str(), "/", bin_path);
    let ghost before = old(actions)@;
    actions.push(LinkAction::Symlink { target: source, link: target });
    actions.push(LinkAction::MakeExecutable { path: source2 });
    assert(steps_of(actions@) =~= steps_of(before) + bin_entry_steps(
        pkg@,
        nm@,
        (bin_name@, bin_path@),
    ));
}

impl LinkerPipe {
    pub fn new(artifacts: Vec<ResolvedArtifact>, root_packages: Vec<InstallPackage>) -> (r: Self)
        ensures
            r.artifacts() == artifacts@,
            r.roots() == root_packages@,
    {
        LinkerPipe { artifacts, root_packages }
    }

    /// Hands back the artifacts and roots.
    pub fn into_parts(self) -> (r: (Vec<ResolvedArtifact>, Vec<InstallPackage>))
        ensures
            r.0@ == self.artifacts(),
            r.1@ == self.roots(),
    {
        (self.artifacts, self.root_packages)
    }

    /// The artifacts to link.
    pub closed spec fn artifacts(&self) -> Seq<ResolvedArtifact> {
        self.artifacts@
    }

    /// The root packages to link into the project.
    pub closed spec fn roots(&self) -> Seq<InstallPackage> {
        self.root_packages@
    }

    /// Appends the steps that expose `artifact`'s executables in
    /// `node_modules_dir/.bin`.
    pub fn link_package_binaries(
        &self,
        artifact: &ResolvedArtifact,
        node_modules_dir: &str,
        actions: &mut Vec<LinkAction>,
    )
        ensures
            steps_of(final(actions)@) == steps_of(old(actions)@) + bin_steps(
                *artifact,
                node_modules_dir@,
            ),
    {
        let ghost before = old(actions)@;
        let bin = match &artifact.package {
            Some(m) => match &m.bin {
                Some(b) => b,
                None => {
                    assert(steps_of(actions@) =~= steps_of(before) + bin_steps(*artifact, node_modules_dir@));
                    return ;
                },
            },
            None => {
                assert(steps_of(actions@) =~= steps_of(before) + bin_steps(*artifact, node_modules_dir@));
                return ;
            },
        };
        actions.push(LinkAction::CreateDir { path: join3(node_modules_dir, "/", ".bin") });
        let ghost es = bin_entries(*artifact);
        let ghost pkg = artifact.name@;
        let ghost nm = node_modules_dir@;
        proof {
            assert(steps_of(actions@) =~= steps_of(before) + seq![LinkStep::CreateDir(child(nm, ".bin"@))]
                + bin_prefix_steps(pkg, nm, es, 0));
        }
        match bin {
            PackageBin::String(path) => {
                push_bin_entry(actions, artifact.name.as_str(), node_modules_dir, artifact.name.as_str(), path.as_str());
                proof {
                    assert(bin_prefix_steps(pkg, nm, es, 1) =~= bin_prefix_steps(pkg, nm, es, 0)
                        + bin_entry_steps(pkg, nm, es[0]));
                }
            },
            PackageBin::Named(entries) => {
                let mut i: usize = 0;
                while i < entries.len()
                    invariant
                        i <= entries@.len() == es.len(),
                        es == bin_entries(*artifact),
                        es == entries@.map_values(|e: (String, String)| (e.0@, e.1@)),
                        pkg == artifact.name@,
                        nm == node_modules_dir@,
                        steps_of(actions@) == steps_of(before) + seq![LinkStep::CreateDir(child(nm, ".bin"@))]
                            + bin_prefix_steps(pkg, nm, es, i as int),
                    decreases entries.len() - i,
                {
                    push_bin_entry(
                        actions,
                        artifact.name.as_str(),
                        node_modules_dir,
                        entries[i].0.as_str(),
                        entries[i].1.as_str(),
                    );
                    proof {
                        assert(es[i as int] == (entries@[i as int].0@, entries@[i as int].1@));
                    }
                    i += 1;
                }
            },
        }
    }

    /// The artifact that `(name, range)` links to (see `best_match`).
    pub fn best_match(&self, name: &str, range: Option<&str>) -> (r: Option<usize>)
        ensures
            r == (match best_match(self.artifacts(), name@, range_view(range)) {
                Some(i) => Some(i as usize),
                None => None,
            }),
            r matches Some(i) ==> i < self.artifacts().len() && best_match(
                self.artifacts(),
                name@,
                range_view(range),
            ) == Some(i as int),
            r is None ==> best_match(self.artifacts(), name@, range_view(range)) is None,
    {
        let mut versions: Vec<String> = Vec::new();
        let mut eligible: Vec<bool> = Vec::new();
        let mut i: usize = 0;
        while i < self.artifacts.len()
            invariant
                i <= self.artifacts@.len(),
                versions@.len() == i,
                eligible@.len() == i,
                forall|j: int| 0 <= j < i ==> versions@[j]@ == self.artifacts@[j].version@,
                forall|j: int| 0 <= j < i ==> eligible@[j] == (self.artifacts@[j].name@ == name@),
            decreases self.artifacts.len() - i,
        {
            versions.push(self.artifacts[i].version.clone());
            eligible.push(same_text(self.artifacts[i].name.as_str(), name));
            i += 1;
        }
        assert(texts_view(versions@) =~= versions_of(self.artifacts@));
        assert(eligible@ =~= named(self.artifacts@, name@));
        let r = select_max_satisfying(&versions, &eligible, range);
        proof {
            if let Some(k) = r {
                crate::semver::lemma_max_candidate_unique(
                    range_view(range),
                    texts_view(versions@),
                    eligible@,
                    k as int,
                );
            }
        }
        r
    }

    /// Appends the steps that hydrate `artifact`'s own `node_modules` in the
    /// cache: each dependency links to its best match, and the match's
    /// executables are exposed there. Dependencies without a match are
    /// skipped.
    pub fn hydrate_artifact(&self, artifact: &ResolvedArtifact, cache_root: &str, actions: &mut Vec<LinkAction>)
        ensures
            steps_of(final(actions)@) == steps_of(old(actions)@) + hydrate_steps(
                self.artifacts(),
                cache_root@,
                *artifact,
            ),
    {
        let ghost before = old(actions)@;
        let deps = match &artifact.package {
            Some(m) => match &m.dependencies {
                Some(d) => d,
                None => {
                    assert(steps_of(actions@) =~= steps_of(before) + hydrate_steps(self.artifacts(), cache_root@, *artifact));
                    return ;
                },
            },
            None => {
                assert(steps_of(actions@) =~= steps_of(before) + hydrate_steps(self.artifacts(), cache_root@, *artifact));
                return ;
            },
        };
        let source_dir = package_dir_of(cache_root, artifact.name.as_str(), artifact.version.as_str());
        let nm = join2(source_dir.as_str(), "/node_modules");
        actions.push(LinkAction::CreateDir { path: join2(source_dir.as_str(), "/node_modules") });
        let ghost dv = deps@.map_values(|e: (String, String)| (e.0@, e.1@));
        let ghost arts = self.artifacts();
        proof {
            assert(nm@ == modules_dir(cache_root@, *artifact));
            assert(steps_of(actions@) =~= steps_of(before) + seq![LinkStep::CreateDir(nm@)]
                + deps_prefix_steps(arts, cache_root@, nm@, dv, 0));
        }
        let mut i: usize = 0;
        while i < deps.len()
            invariant
                i <= deps@.len() == dv.len(),
                dv == deps@.map_values(|e: (String, String)| (e.0@, e.1@)),
                deps_of(*artifact) == Some(dv),
                nm@ == modules_dir(cache_root@, *artifact),
                arts == self.artifacts(),
                steps_of(actions@) == steps_of(before) + seq![LinkStep::CreateDir(nm@)]
                    + deps_prefix_steps(arts, cache_root@, nm@, dv, i as int),
            decreases deps.len() - i,
        {
            let ghost mid = actions@;
            let dep_name = deps[i].0.as_str();
            assert(dv[i as int] == (deps@[i as int].0@, deps@[i as int].1@));
            match self.best_match(dep_name, Some(deps[i].1.as_str())) {
                Some(k) => {
                    let d = &self.artifacts[k];
                    let target = package_dir_of(cache_root, d.name.as_str(), d.version.as_str());
                    actions.push(LinkAction::Symlink { target, link: join3(nm.as_str(), "/", dep_name) });
                    let ghost mid2 = actions@;
                    self.link_package_binaries(d, nm.as_str(), actions);
                    proof {
                        assert(steps_of(mid2) =~= steps_of(mid) + seq![
                            LinkStep::Symlink(package_dir(cache_root@, d.name@, d.version@), child(nm@, dep_name@)),
                        ]);
                        assert(steps_of(actions@) =~= steps_of(mid) + dep_steps(arts, cache_root@, nm@, dv[i as int]));
                    }
                },
                None => {
                    assert(dep_steps(arts, cache_root@, nm@, dv[i as int]) =~= Seq::<LinkStep>::empty());
                    assert(steps_of(actions@) =~= steps_of(mid) + dep_steps(arts, cache_root@, nm@, dv[i as int]));
                },
            }
            proof {
                assert(deps_prefix_steps(arts, cache_root@, nm@, dv, i + 1) == deps_prefix_steps(arts, cache_root@, nm@, dv, i as int)
                    + dep_steps(arts, cache_root@, nm@, dv[i as int]));
                assert(steps_of(actions@) =~= steps_of(before) + seq![LinkStep::CreateDir(nm@)]
                    + deps_prefix_steps(arts, cache_root@, nm@, dv, i + 1));
            }
            i += 1;
        }
    }

    /// Appends the steps that link a root package into the project's
    /// `node_modules`: a symlink named after the matched artifact, and its
    /// executables. A root without a match is skipped.
    pub fn link_root_package(
        &self,
        package: &InstallPackage,
        cache_root: &str,
        node_modules: &str,
        actions: &mut Vec<LinkAction>,
    )
        ensures
            steps_of(final(actions)@) == steps_of(old(actions)@) + root_steps(
                self.artifacts(),
                cache_root@,
                node_modules@,
                *package,
            ),
    {
        let ghost before = old(actions)@;
        let range = match &package.version {
            Some(v) => Some(v.as_str()),
            None => None,
        };
        assert(range_view(range) == opt_view(package.version));
        match self.best_match(package.name.as_str(), range) {
            Some(k) => {
                let a = &self.artifacts[k];
                let target = package_dir_of(cache_root, a.name.as_str(), a.version.as_str());
                actions.push(LinkAction::Symlink { target, link: join3(node_modules, "/", a.name.as_str()) });
                let ghost mid = actions@;
                self.link_package_binaries(a, node_modules, actions);
                proof {
                    assert(steps_of(mid) =~= steps_of(before) + seq![
                        LinkStep::Symlink(package_dir(cache_root@, a.name@, a.version@), child(node_modules@, a.name@)),
                    ]);
                    assert(steps_of(actions@) =~= steps_of(before) + root_steps(self.artifacts(), cache_root@, node_modules@, *package));
                }
            },
            None => {
                assert(steps_of(actions@) =~= steps_of(before) + root_steps(self.artifacts(), cache_root@, node_modules@, *package));
            },
        }
    }

    /// The whole plan for a project at `project_dir` and a cache at
    /// `cache_root`: every artifact is hydrated before any root is linked.
    pub fn plan(&self, cache_root: &str, project_dir: &str) -> (r: Vec<LinkAction>)
        ensures
            steps_of(r@) == plan_steps(self.artifacts(), self.roots(), cache_root@, project_dir@),
    {
        let node_modules = join3(project_dir, "/", "node_modules");
        let mut actions: Vec<LinkAction> = Vec::new();
        actions.push(LinkAction::CreateDir { path: join3(project_dir, "/", "node_modules") });
        let ghost arts = self.artifacts();
        let ghost head = seq![LinkStep::CreateDir(child(project_dir@, "node_modules"@))];
        assert(steps_of(actions@) =~= head + hydrate_prefix_steps(arts, cache_root@, 0));
        let mut i: usize = 0;
        while i < self.artifacts.len()
            invariant
                i <= self.artifacts@.len(),
                arts == self.artifacts(),
                head == seq![LinkStep::CreateDir(child(project_dir@, "node_modules"@))],
                steps_of(actions@) == head + hydrate_prefix_steps(arts, cache_root@, i as int),
            decreases self.artifacts.len() - i,
        {
            self.hydrate_artifact(&self.artifacts[i], cache_root, &mut actions);
            proof {
                assert(steps_of(actions@) =~= head + hydrate_prefix_steps(arts, cache_root@, i + 1));
            }
            i += 1;
        }
        let ghost mid = steps_of(actions@);
        let ghost roots = self.roots();
        assert(mid + roots_prefix_steps(arts, cache_root@, node_modules@, roots, 0) =~= mid);
        let mut j: usize = 0;
        while j < self.root_packages.len()
            invariant
                j <= self.root_packages@.len(),
                arts == self.artifacts(),
                roots == self.roots(),
                node_modules@ == child(project_dir@, "node_modules"@),
                steps_of(actions@) == mid + roots_prefix_steps(arts, cache_root@, node_modules@, roots, j as int),
            decreases self.root_packages.len() - j,
        {
            self.link_root_package(&self.root_packages[j], cache_root, node_modules.as_str(), &mut actions);
            proof {
                assert(steps_of(actions@) =~= mid + roots_prefix_steps(arts, cache_root@, node_modules@, roots, j + 1));
            }
            j += 1;
        }
        assert(mid == head + hydrate_prefix_steps(arts, cache_root@, arts.len() as int));
        actions
    }
}

} // verus!
