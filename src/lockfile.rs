//! The lockfile: one entry per resolved `{name}@{version}`.
use vstd::prelude::*;
use vstd::string::*;
use crate::assoc::{
    assoc_get, assoc_insert, assoc_put, entries_view, key_position, lemma_key_position_bounds,
    lemma_put_map, lemma_put_unique, map_vals, unique_keys, pairs_view, position_of,
};
use crate::package::{copy_opt, copy_opt_pairs, opt_view};
use crate::resolved::{version_key, ResolvedArtifact};
use crate::text::join3;

verus! {

/// One locked package.
#[derive(Debug)]
pub struct PackageEntry {
    pub name: String,
    pub version: String,
    pub resolved: String,
    pub integrity: Option<String>,
    pub dependencies: Option<Vec<(String, String)>>,
}

/// An entry's fields, viewed.
pub type EntryView = (Seq<char>, Seq<char>, Seq<char>, Option<Seq<char>>, Option<Seq<(Seq<char>, Seq<char>)>>);

/// The view of an entry.
pub open spec fn entry_view(e: PackageEntry) -> EntryView {
    (
        e.name@,
        e.version@,
        e.resolved@,
        opt_view(e.integrity),
        match e.dependencies {
            Some(d) => Some(pairs_view(d@)),
            None => None,
        },
    )
}

/// The entry that records an artifact: its name, version, download URL,
/// integrity, and its manifest's dependencies.
pub open spec fn artifact_entry(a: ResolvedArtifact) -> EntryView {
    (
        a.name@,
        a.version@,
        a.download_url@,
        opt_view(a.integrity),
        match a.package {
            Some(m) => match m.dependencies {
                Some(d) => Some(pairs_view(d@)),
                None => None,
            },
            None => None,
        },
    )
}

impl PackageEntry {
    pub fn new(name: String, version: String, resolved: String) -> (r: Self)
        ensures
            r.name == name,
            r.version == version,
            r.resolved == resolved,
            r.integrity is None,
            r.dependencies is None,
    {
        PackageEntry { name, version, resolved, integrity: None, dependencies: None }
    }

    pub fn with_integrity(self, integrity: String) -> (r: Self)
        ensures
            r == (PackageEntry { integrity: Some(integrity), ..self }),
    {
        let mut s = self;
        s.integrity = Some(integrity);
        s
    }

    pub fn with_dependencies(self, dependencies: Vec<(String, String)>) -> (r: Self)
        ensures
            r == (PackageEntry { dependencies: Some(dependencies), ..self }),
    {
        let mut s = self;
        s.dependencies = Some(dependencies);
        s
    }

    /// `{name}@{version}`
    pub fn key(&self) -> (r: String)
        ensures
            r@ == version_key(self.name@, self.version@),
    {
        join3(self.name.as_str(), "@", self.version.as_str())
    }
}

/// The lockfile: format version and the entries by key.
#[derive(Debug)]
pub struct Lockfile {
    pub version: String,
    pub packages: Vec<(String, PackageEntry)>,
}

/// The entries after recording the first `n` artifacts in turn.
pub open spec fn generated_entries(arts: Seq<ResolvedArtifact>, n: int) -> Seq<(Seq<char>, EntryView)>
    decreases n,
{
    if n <= 0 {
        Seq::empty()
    } else {
        assoc_put(
            generated_entries(arts, n - 1),
            version_key(arts[n - 1].name@, arts[n - 1].version@),
            artifact_entry(arts[n - 1]),
        )
    }
}

impl Lockfile {
    /// The entries with their keys viewed.
    pub open spec fn entries(&self) -> Seq<(Seq<char>, PackageEntry)> {
        entries_view(self.packages@)
    }

    /// The entries with keys and fields viewed.
    pub open spec fn entry_views(&self) -> Seq<(Seq<char>, EntryView)> {
        map_vals(self.entries(), |e: PackageEntry| entry_view(e))
    }

    /// Keys are unique.
    pub open spec fn wf(&self) -> bool {
        unique_keys(self.entries())
    }

    /// An empty lockfile of format `1.0.0`.
    pub fn new() -> (r: Self)
        ensures
            r.wf(),
            r.version@ == "1.0.0"@,
            r.packages@.len() == 0,
    {
        Lockfile { version: String::from_str("1.0.0"), packages: Vec::new() }
    }

    /// Records an entry under `{name}@{version}`, replacing one already
    /// there.
    pub fn add_package(&mut self, entry: PackageEntry)
        requires
            old(self).wf(),
        ensures
            final(self).wf(),
            final(self).version == old(self).version,
            final(self).entries() == assoc_put(
                old(self).entries(),
                version_key(entry.name@, entry.version@),
                entry,
            ),
    {
        let key = entry.key();
        let ghost k = key@;
        proof {
            lemma_key_position_bounds(old(self).entries(), k);
        }
        assoc_insert(&mut self.packages, key, entry);
        proof {
            lemma_put_unique(old(self).entries(), k, entry);
        }
    }

    /// The entry of `{name}@{version}`.
    pub fn get_package(&self, name: &str, version: &str) -> (r: Option<&PackageEntry>)
        ensures
            match r {
                Some(e) => assoc_get(self.entries(), version_key(name@, version@)) == Some(*e),
                None => assoc_get(self.entries(), version_key(name@, version@)) is None,
            },
    {
        let key = join3(name, "@", version);
        match position_of(&self.packages, key.as_str()) {
            Some(k) => Some(&self.packages[k].1),
            None => None,
        }
    }

    /// Whether `{name}@{version}` is locked.
    pub fn has_package(&self, name: &str, version: &str) -> (r: bool)
        ensures
            r == assoc_get(self.entries(), version_key(name@, version@)) is Some,
    {
        self.get_package(name, version).is_some()
    }

    /// The number of locked packages.
    pub fn package_count(&self) -> (r: usize)
        ensures
            r == self.packages@.len(),
    {
        self.packages.len()
    }
}

/// Builds the lockfile from the resolved artifacts.
pub struct LockfileGeneratorPipe {
    artifacts: Vec<ResolvedArtifact>,
}

impl LockfileGeneratorPipe {
    pub fn new(artifacts: Vec<ResolvedArtifact>) -> (r: Self)
        ensures
            r.artifacts() == artifacts@,
    {
        LockfileGeneratorPipe { artifacts }
    }

    /// The artifacts to record.
    pub closed spec fn artifacts(&self) -> Seq<ResolvedArtifact> {
        self.artifacts@
    }

    /// The lockfile that records every artifact, in order, each under
    /// `{name}@{version}`.
    pub fn generate(&self) -> (r: Lockfile)
        ensures
            r.wf(),
            r.version@ == "1.0.0"@,
            r.entry_views() == generated_entries(self.artifacts(), self.artifacts().len() as int),
    {
        let mut lock = Lockfile::new();
        assert(lock.entries() =~= Seq::<(Seq<char>, PackageEntry)>::empty());
        assert(lock.entry_views() =~= generated_entries(self.artifacts@, 0));
        let mut i: usize = 0;
        while i < self.artifacts.len()
            invariant
                i <= self.artifacts@.len(),
                lock.wf(),
                lock.version@ == "1.0.0"@,
                lock.entry_views() == generated_entries(self.artifacts@, i as int),
            decreases self.artifacts.len() - i,
        {
            let a = &self.artifacts[i];
            let dependencies = match &a.package {
                Some(m) => copy_opt_pairs(&m.dependencies),
                None => None,
            };
            let entry = PackageEntry {
                name: a.name.clone(),
                version: a.version.clone(),
                resolved: a.download_url.clone(),
                integrity: copy_opt(&a.integrity),
                dependencies,
            };
            assert(entry_view(entry) == artifact_entry(*a));
            let ghost before = lock.entries();
            lock.add_package(entry);
            proof {
                lemma_put_map(before, version_key(entry.name@, entry.version@), entry, |e: PackageEntry| entry_view(e));
            }
            i += 1;
        }
        lock
    }
}

impl Default for Lockfile {
    fn default() -> (r: Self)
        ensures
            r.wf(),
            r.version@ == "1.0.0"@,
            r.packages@.len() == 0,
    {
        Lockfile::new()
    }
}

} // verus!
