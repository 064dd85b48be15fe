//! The commands' own decisions: which specs to install, which manifest
//! entries to write or drop, which script to run, whether to wipe the cache.
use vstd::prelude::*;
use vstd::string::*;
use crate::assoc::{
    assoc_get, assoc_put, assoc_remove, assoc_set_text, assoc_without, entries_view, pairs_view,
    position_of,
};
use crate::package::{literal_name, literal_version, opt_view, InstallPackage};
use crate::resolved::ResolvedArtifact;
use crate::text::{join2, join3, same_text};

verus! {

/// An actor is built from its payload; the caller then runs it.
pub trait Actor<T>: Sized {
    fn with(t: T) -> Self;
}

/// The texts of `parts` separated by `sep`.
pub open spec fn joined(parts: Seq<Seq<char>>, sep: Seq<char>) -> Seq<char>
    decreases parts.len(),
{
    if parts.len() == 0 {
        Seq::empty()
    } else if parts.len() == 1 {
        parts[0]
    } else {
        joined(parts.drop_last(), sep) + sep + parts.last()
    }
}

/// The texts of a list of strings.
pub open spec fn texts(v: Seq<String>) -> Seq<Seq<char>> {
    v.map_values(|s: String| s@)
}

/// Joins the strings with `sep` between them.
pub fn join_all(parts: &Vec<String>, sep: &str) -> (r: String)
    ensures
        r@ == joined(texts(parts@), sep@),
{
    let mut r = String::new();
    let mut i: usize = 0;
    while i < parts.len()
        invariant
            i <= parts@.len(),
            r@ == joined(texts(parts@.subrange(0, i as int)), sep@),
        decreases parts.len() - i,
    {
        let ghost before = r@;
        if i > 0 {
            r.append(sep);
        }
        r.append(parts[i].as_str());
        proof {
            let t = texts(parts@.subrange(0, i + 1));
            assert(t.drop_last() =~= texts(parts@.subrange(0, i as int)));
            assert(t.last() == parts@[i as int]@);
            assert(r@ =~= joined(t, sep@));
        }
        i += 1;
    }
    assert(parts@.subrange(0, i as int) =~= parts@);
    r
}

/// What `add` was asked for.
#[derive(Debug)]
pub struct AddActorPayload {
    pub packages: Vec<String>,
    pub is_dev: bool,
}

impl AddActorPayload {
    /// The requested literals separated by spaces.
    pub fn to_string(&self) -> (r: String)
        ensures
            r@ == joined(texts(self.packages@), " "@),
    {
        join_all(&self.packages, " ")
    }
}

/// Index of the first artifact named `name`, or -1.
pub open spec fn first_named(arts: Seq<ResolvedArtifact>, name: Seq<char>) -> int
    decreases arts.len(),
{
    if arts.len() == 0 {
        -1
    } else if arts[0].name@ == name {
        0
    } else {
        let k = first_named(arts.drop_first(), name);
        if k < 0 {
            -1
        } else {
            k + 1
        }
    }
}

/// The dependency map after recording the first `n` requested packages:
/// each that resolved is set to `^{version}` of its artifact.
pub open spec fn added_entries(
    literals: Seq<Seq<char>>,
    arts: Seq<ResolvedArtifact>,
    deps: Seq<(Seq<char>, Seq<char>)>,
    n: int,
) -> Seq<(Seq<char>, Seq<char>)>
    decreases n,
{
    if n <= 0 {
        deps
    } else {
        let d = added_entries(literals, arts, deps, n - 1);
        let k = first_named(arts, literal_name(literals[n - 1]));
        if k < 0 {
            d
        } else {
            assoc_put(d, arts[k].name@, "^"@ + arts[k].version@)
        }
    }
}

proof fn lemma_first_named(arts: Seq<ResolvedArtifact>, name: Seq<char>, i: int)
    requires
        0 <= i <= arts.len(),
        forall|j: int| 0 <= j < i ==> arts[j].name@ != name,
    ensures
        i < arts.len() && arts[i].name@ == name ==> first_named(arts, name) == i,
        i == arts.len() ==> first_named(arts, name) == -1,
    decreases i,
{
    if i > 0 {
        lemma_first_named(arts.drop_first(), name, i - 1);
    }
}

/// Adds packages to the project.
pub struct AddPackageActor {
    pub payload: AddActorPayload,
}

impl Actor<AddActorPayload> for AddPackageActor {
    fn with(payload: AddActorPayload) -> Self {
        AddPackageActor { payload }
    }
}

impl AddPackageActor {
    /// The specifications to install: each literal read by
    /// `InstallPackage::from_literal` with the payload's dev flag.
    pub fn requested(&self) -> (r: Vec<InstallPackage>)
        ensures
            r@.len() == self.payload.packages@.len(),
            forall|i: int|
                0 <= i < r@.len() ==> (#[trigger] r@[i]).name@ == literal_name(
                    self.payload.packages@[i]@,
                ) && opt_view(r@[i].version) == literal_version(self.payload.packages@[i]@)
                    && r@[i].is_dev == self.payload.is_dev,
    {
        let mut r: Vec<InstallPackage> = Vec::new();
        let mut i: usize = 0;
        while i < self.payload.packages.len()
            invariant
                i <= self.payload.packages@.len(),
                r@.len() == i,
                forall|j: int|
                    0 <= j < i ==> (#[trigger] r@[j]).name@ == literal_name(
                        self.payload.packages@[j]@,
                    ) && opt_view(r@[j].version) == literal_version(self.payload.packages@[j]@)
                        && r@[j].is_dev == self.payload.is_dev,
            decreases self.payload.packages.len() - i,
        {
            r.push(InstallPackage::from_literal(self.payload.packages[i].as_str(), self.payload.is_dev));
            i += 1;
        }
        r
    }

    /// Records each requested package that resolved in `deps` (the
    /// `dependencies` map, or `devDependencies` for a dev add) as
    /// `^{resolved version}`, under the artifact's name.
    pub fn record_added(&self, artifacts: &Vec<ResolvedArtifact>, deps: &mut Vec<(String, String)>)
        ensures
            pairs_view(final(deps)@) == added_entries(
                texts(self.payload.packages@),
                artifacts@,
                pairs_view(old(deps)@),
                self.payload.packages@.len() as int,
            ),
    {
        let ghost lits = texts(self.payload.packages@);
        let ghost d0 = pairs_view(old(deps)@);
        let mut i: usize = 0;
        while i < self.payload.packages.len()
            invariant
                i <= self.payload.packages@.len() == lits.len(),
                lits == texts(self.payload.packages@),
                pairs_view(deps@) == added_entries(lits, artifacts@, d0, i as int),
            decreases self.payload.packages.len() - i,
        {
            let spec = InstallPackage::from_literal(self.payload.packages[i].as_str(), false);
            let mut k: usize = 0;
            while k < artifacts.len() && !same_text(artifacts[k].name.as_str(), spec.name.as_str())
                invariant
                    k <= artifacts@.len(),
                    forall|j: int| 0 <= j < k ==> artifacts@[j].name@ != spec.name@,
                decreases artifacts.len() - k,
            {
                k += 1;
            }
            proof {
                lemma_first_named(artifacts@, spec.name@, k as int);
                assert(lits[i as int] == self.payload.packages@[i as int]@);
            }
            if k < artifacts.len() {
                let a = &artifacts[k];
                assoc_set_text(deps, a.name.clone(), join2("^", a.version.as_str()));
            }
            i += 1;
        }
    }
}

/// What `remove` was asked for.
#[derive(Debug)]
pub struct RemoveActorPayload {
    pub packages: Vec<String>,
}

/// The map after dropping the first `n` names.
pub open spec fn without_names(
    names: Seq<Seq<char>>,
    deps: Seq<(Seq<char>, Seq<char>)>,
    n: int,
) -> Seq<(Seq<char>, Seq<char>)>
    decreases n,
{
    if n <= 0 {
        deps
    } else {
        assoc_without(without_names(names, deps, n - 1), names[n - 1])
    }
}

/// Removes packages from the project.
pub struct RemovePackageActor {
    pub payload: RemoveActorPayload,
}

impl Actor<RemoveActorPayload> for RemovePackageActor {
    fn with(payload: RemoveActorPayload) -> Self {
        RemovePackageActor { payload }
    }
}

impl RemovePackageActor {
    /// `<project>/node_modules/{name}` for each package to remove.
    pub fn module_paths(&self, project_dir: &str) -> (r: Vec<String>)
        ensures
            r@.len() == self.payload.packages@.len(),
            forall|i: int|
                0 <= i < r@.len() ==> (#[trigger] r@[i])@ == project_dir@ + "/node_modules/"@
                    + self.payload.packages@[i]@,
    {
        let base = join2(project_dir, "/node_modules/");
        let mut r: Vec<String> = Vec::new();
        let mut i: usize = 0;
        while i < self.payload.packages.len()
            invariant
                i <= self.payload.packages@.len(),
                base@ == project_dir@ + "/node_modules/"@,
                r@.len() == i,
                forall|j: int|
                    0 <= j < i ==> (#[trigger] r@[j])@ == project_dir@ + "/node_modules/"@
                        + self.payload.packages@[j]@,
            decreases self.payload.packages.len() - i,
        {
            r.push(join2(base.as_str(), self.payload.packages[i].as_str()));
            i += 1;
        }
        r
    }

    /// Drops every package to remove from a dependency map (used for both
    /// `dependencies` and `devDependencies`).
    pub fn remove_from(&self, deps: &mut Vec<(String, String)>)
        ensures
            pairs_view(final(deps)@) == without_names(
                texts(self.payload.packages@),
                pairs_view(old(deps)@),
                self.payload.packages@.len() as int,
            ),
    {
        let ghost names = texts(self.payload.packages@);
        let ghost d0 = pairs_view(old(deps)@);
        let mut i: usize = 0;
        while i < self.payload.packages.len()
            invariant
                i <= self.payload.packages@.len() == names.len(),
                names == texts(self.payload.packages@),
                pairs_view(deps@) == without_names(names, d0, i as int),
            decreases self.payload.packages.len() - i,
        {
            assoc_remove(deps, self.payload.packages[i].as_str());
            i += 1;
        }
    }
}

/// What `run` was asked for.
#[derive(Debug)]
pub struct RunScriptActorPayload {
    pub script: String,
    pub args: Vec<String>,
}

impl RunScriptActorPayload {
    /// `{script} {args separated by spaces}`
    pub fn to_string(&self) -> (r: String)
        ensures
            r@ == self.script@ + " "@ + joined(texts(self.args@), " "@),
    {
        let a = join_all(&self.args, " ");
        join3(self.script.as_str(), " ", a.as_str())
    }
}

/// Runs a script of the project, or a binary that a package exposes.
pub struct RunScriptActor {
    pub payload: RunScriptActorPayload,
}

impl Actor<RunScriptActorPayload> for RunScriptActor {
    fn with(payload: RunScriptActorPayload) -> Self {
        RunScriptActor { payload }
    }
}

/// The command that a script name stands for: the manifest's script of
/// that name; else the binary at `bin_path` when it exists; else the name.
pub open spec fn script_command(
    name: Seq<char>,
    scripts: Option<Seq<(Seq<char>, String)>>,
    bin_exists: bool,
    bin_path: Seq<char>,
) -> Seq<char> {
    let from_scripts = match scripts {
        Some(s) => assoc_get(s, name),
        None => None,
    };
    match from_scripts {
        Some(v) => v@,
        None => if bin_exists {
            bin_path
        } else {
            name
        },
    }
}

impl RunScriptActor {
    /// `<project>/node_modules/.bin/{script}`
    pub fn bin_path(&self, project_dir: &str) -> (r: String)
        ensures
            r@ == project_dir@ + "/node_modules/.bin/"@ + self.payload.script@,
    {
        join3(project_dir, "/node_modules/.bin/", self.payload.script.as_str())
    }

    /// The command to run for the payload's script (see `script_command`).
    pub fn lookup_script(
        &self,
        scripts: &Option<Vec<(String, String)>>,
        bin_exists: bool,
        bin_path: &str,
    ) -> (r: String)
        ensures
            r@ == script_command(
                self.payload.script@,
                match scripts {
                    Some(s) => Some(entries_view(s@)),
                    None => None,
                },
                bin_exists,
                bin_path@,
            ),
    {
        if let Some(s) = scripts {
            proof {
                crate::assoc::lemma_key_position_bounds(entries_view(s@), self.payload.script@);
            }
            if let Some(k) = position_of(s, self.payload.script.as_str()) {
                return s[k].1.clone();
            }
        }
        if bin_exists {
            String::from_str(bin_path)
        } else {
            self.payload.script.clone()
        }
    }

    /// The shell command line: the command, then the payload's arguments
    /// separated by spaces, if any.
    pub fn command_line(&self, command: &str) -> (r: String)
        ensures
            self.payload.args@.len() == 0 ==> r@ == command@,
            self.payload.args@.len() > 0 ==> r@ == command@ + " "@ + joined(
                texts(self.payload.args@),
                " "@,
            ),
    {
        if self.payload.args.len() == 0 {
            String::from_str(command)
        } else {
            let a = join_all(&self.payload.args, " ");
            join3(command, " ", a.as_str())
        }
    }
}

/// What `cache clean` was asked for.
#[derive(Debug)]
pub struct CleanCacheActorPayload {
    pub force: bool,
}

/// Wipes the package cache.
pub struct CleanCacheActor {
    pub payload: CleanCacheActorPayload,
}

/// What `cache clean` does.
#[derive(Debug, PartialEq, Eq, Clone, Copy)]
pub enum CleanStep {
    /// Tell the user that `--force` is required; touch nothing.
    AskForForce,
    /// Delete the cache directory recursively, then create it empty.
    Wipe,
    /// The cache directory does not exist: create it empty.
    Create,
}

impl Actor<CleanCacheActorPayload> for CleanCacheActor {
    fn with(payload: CleanCacheActorPayload) -> Self {
        CleanCacheActor { payload }
    }
}

impl CleanCacheActor {
    /// Without `--force` nothing is touched; with it the cache ends as an
    /// empty directory: an existing one is wiped and recreated, a missing
    /// one is created.
    pub fn decide(&self, cache_exists: bool) -> (r: CleanStep)
        ensures
            !self.payload.force ==> r == CleanStep::AskForForce,
            self.payload.force && !cache_exists ==> r == CleanStep::Create,
            self.payload.force && cache_exists ==> r == CleanStep::Wipe,
    {
        if !self.payload.force {
            CleanStep::AskForForce
        } else if !cache_exists {
            CleanStep::Create
        } else {
            CleanStep::Wipe
        }
    }
}

/// Installs everything that the project's manifest lists.
pub struct InstallActor;

impl Actor<()> for InstallActor {
    fn with(_unit: ()) -> Self {
        InstallActor
    }
}

impl InstallActor {
    /// The specifications of a manifest: each `dependencies` entry, then
    /// each `devDependencies` entry as a dev spec, with the entry's range.
    pub fn packages_of(
        dependencies: &Option<Vec<(String, String)>>,
        dev_dependencies: &Option<Vec<(String, String)>>,
    ) -> (r: Vec<InstallPackage>)
        ensures
            ({
                let d: Seq<(String, String)> = match dependencies {
                    Some(v) => v@,
                    None => Seq::empty(),
                };
                let e: Seq<(String, String)> = match dev_dependencies {
                    Some(v) => v@,
                    None => Seq::empty(),
                };
                &&& r@.len() == d.len() + e.len()
                &&& forall|i: int|
                    0 <= i < d.len() ==> (#[trigger] r@[i]).name@ == d[i].0@ && opt_view(
                        r@[i].version,
                    ) == Some(d[i].1@) && !r@[i].is_dev
                &&& forall|i: int|
                    d.len() <= i < r@.len() ==> (#[trigger] r@[i]).name@ == e[i - d.len()].0@
                        && opt_view(r@[i].version) == Some(e[i - d.len()].1@) && r@[i].is_dev
            }),
    {
        let mut r: Vec<InstallPackage> = Vec::new();
        let ghost d: Seq<(String, String)> = match dependencies {
            Some(v) => v@,
            None => Seq::empty(),
        };
        if let Some(v) = dependencies {
            let mut i: usize = 0;
            while i < v.len()
                invariant
                    i <= v@.len(),
                    d == v@,
                    r@.len() == i,
                    forall|j: int|
                        0 <= j < i ==> (#[trigger] r@[j]).name@ == d[j].0@ && opt_view(r@[j].version)
                            == Some(d[j].1@) && !r@[j].is_dev,
                decreases v.len() - i,
            {
                r.push(InstallPackage::new(v[i].0.clone(), Some(v[i].1.clone()), false));
                i += 1;
            }
        }
        let n = r.len();
        if let Some(v) = dev_dependencies {
            let mut i: usize = 0;
            while i < v.len()
                invariant
                    i <= v@.len(),
                    n == d.len(),
                    r@.len() == n + i,
                    forall|j: int|
                        0 <= j < n ==> (#[trigger] r@[j]).name@ == d[j].0@ && opt_view(r@[j].version)
                            == Some(d[j].1@) && !r@[j].is_dev,
                    forall|j: int|
                        n <= j < n + i ==> (#[trigger] r@[j]).name@ == v@[j - n].0@ && opt_view(
                            r@[j].version,
                        ) == Some(v@[j - n].1@) && r@[j].is_dev,
                decreases v.len() - i,
            {
                r.push(InstallPackage::new(v[i].0.clone(), Some(v[i].1.clone()), true));
                i += 1;
            }
        }
        r
    }
}

} // verus!
