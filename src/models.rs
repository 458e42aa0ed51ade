//! The three tiers of manifests: nexus, workspace and package.

use vstd::prelude::*;
use crate::dependency::DependencyModel;
use crate::table::DependencyTable;

verus! {

/// Override tables by source or registry name: each maps dependency names to
/// the record that replaces that dependency everywhere.
#[derive(Debug, Clone, Default)]
pub struct PatchMap {
    /// The override tables, each source name at most once.
    pub registries: Vec<(String, DependencyTable)>,
}

impl PatchMap {
    /// Source names are distinct and every table is well formed.
    pub open spec fn wf(&self) -> bool {
        &&& forall|i: int, j: int|
            0 <= i < self.registries@.len() && 0 <= j < self.registries@.len() && i != j
                ==> #[trigger] self.registries@[i].0@ != #[trigger] self.registries@[j].0@
        &&& forall|i: int| 0 <= i < self.registries@.len() ==> #[trigger] self.registries@[i].1.wf()
    }

    /// An empty override map.
    pub fn new() -> (r: PatchMap)
        ensures
            r.wf(),
            r.registries@.len() == 0,
    {
        PatchMap { registries: Vec::new() }
    }

    /// Whether no source has an override table.
    pub fn is_empty(&self) -> (r: bool)
        ensures
            r == (self.registries@.len() == 0),
    {
        self.registries.len() == 0
    }

    /// Sets, in the table of source `i`, the record named `name`.
    pub fn insert_at(&mut self, i: usize, name: String, dep: DependencyModel)
        requires
            old(self).wf(),
            i < old(self).registries@.len(),
        ensures
            final(self).wf(),
            final(self).registries@.len() == old(self).registries@.len(),
            forall|j: int|
                0 <= j < old(self).registries@.len() ==> (#[trigger] final(self).registries@[j]).0
                    == old(self).registries@[j].0,
            forall|j: int|
                0 <= j < old(self).registries@.len() && j != i
                    ==> (#[trigger] final(self).registries@[j]).1@ == old(self).registries@[j].1@,
            final(self).registries@[i as int].1@ == old(self).registries@[i as int].1@.insert(
                name@,
                dep@,
            ),
    {
        let mut pair = (String::new(), DependencyTable::new());
        self.registries.set_and_swap(i, &mut pair);
        pair.1.insert(name, dep);
        self.registries.set(i, pair);
        proof {
            assert forall|a: int, b: int|
                0 <= a < self.registries@.len() && 0 <= b < self.registries@.len() && a != b
                implies #[trigger] self.registries@[a].0@ != #[trigger] self.registries@[b].0@ by {
                assert(old(self).registries@[a].0@ != old(self).registries@[b].0@);
            }
            assert forall|a: int| 0 <= a < self.registries@.len() implies #[trigger] self.registries@[a].1.wf() by {
                assert(old(self).registries@[a].1.wf());
            }
        }
    }

    /// Whether `self` holds the same tables as `o`, in the same order.
    pub open spec fn same_as(&self, o: PatchMap) -> bool {
        &&& self.registries@.len() == o.registries@.len()
        &&& forall|i: int| 0 <= i < o.registries@.len() ==> (#[trigger] self.registries@[i]).0@
            == o.registries@[i].0@ && self.registries@[i].1@ == o.registries@[i].1@
    }

    /// A copy of the map.
    pub fn duplicate(&self) -> (r: PatchMap)
        requires
            self.wf(),
        ensures
            r.wf(),
            r.registries@.len() == self.registries@.len(),
            forall|i: int|
                0 <= i < self.registries@.len() ==> (#[trigger] r.registries@[i]).0@
                    == self.registries@[i].0@ && r.registries@[i].1@ == self.registries@[i].1@,
    {
        let mut r: Vec<(String, DependencyTable)> = Vec::new();
        let mut i: usize = 0;
        while i < self.registries.len()
            invariant
                self.wf(),
                i <= self.registries@.len(),
                r@.len() == i,
                forall|j: int|
                    0 <= j < i ==> (#[trigger] r@[j]).0@ == self.registries@[j].0@ && r@[j].1@
                        == self.registries@[j].1@ && r@[j].1.wf(),
            decreases self.registries@.len() - i,
        {
            let (n, t) = &self.registries[i];
            r.push((n.clone(), t.duplicate()));
            i = i + 1;
        }
        PatchMap { registries: r }
    }
}

/// A package: one buildable unit and its dependencies.
#[derive(Debug, Clone, Default)]
pub struct PackageModel {
    pub name: String,
    pub version: String,
    pub edition: String,
    pub description: String,
    pub authors: Vec<String>,
    pub homepage: Option<String>,
    pub repository: Option<String>,
    pub documentation: Option<String>,
    pub license: Option<String>,
    /// Keys of the package section that the model does not know, with their
    /// values as manifest text.
    pub custom: Vec<(String, String)>,
    pub dependencies: DependencyTable,
    pub patch: PatchMap,
    /// The package's directory, canonical.
    pub root_path: String,
    /// The manifest file the package was read from.
    pub source_path: String,
}

/// A workspace: a group of packages that may share dependency definitions.
#[derive(Debug, Clone, Default)]
pub struct WorkspaceModel {
    pub name: String,
    pub description: Option<String>,
    /// Member patterns, relative to the workspace root.
    pub members: Vec<String>,
    /// Patterns of directories left out of the members.
    pub exclude: Vec<String>,
    /// The build tool's resolver version.
    pub resolver: Option<String>,
    pub custom: Vec<(String, String)>,
    /// Dependency definitions shared with the members.
    pub dependencies: DependencyTable,
    pub patch: PatchMap,
    pub root_path: String,
    pub source_path: String,
}

/// A nexus: the top tier, grouping workspaces and packages.
#[derive(Debug, Clone, Default)]
pub struct NexusModel {
    pub name: String,
    pub version: Option<String>,
    pub description: Option<String>,
    pub members: Vec<String>,
    pub exclude: Vec<String>,
    pub patch: PatchMap,
    pub custom: Vec<(String, String)>,
    pub root_path: String,
    pub source_path: String,
}

/// A manifest of one of the three tiers.
#[derive(Debug, Clone)]
pub enum ManifestModel {
    Nexus(NexusModel),
    Workspace(WorkspaceModel),
    Package(PackageModel),
}

impl PackageModel {
    pub open spec fn wf(&self) -> bool {
        self.dependencies.wf() && self.patch.wf()
    }

    /// A copy of the package.
    pub fn duplicate(&self) -> (r: PackageModel)
        requires
            self.wf(),
        ensures
            r.wf(),
            r.name == self.name && r.version == self.version && r.edition == self.edition,
            r.description == self.description,
            r.authors@ == self.authors@,
            r.homepage == self.homepage && r.repository == self.repository,
            r.documentation == self.documentation && r.license == self.license,
            r.custom@ == self.custom@,
            r.dependencies@ == self.dependencies@,
            r.patch.same_as(self.patch),
            r.root_path == self.root_path && r.source_path == self.source_path,
    {
        PackageModel {
            name: self.name.clone(),
            version: self.version.clone(),
            edition: self.edition.clone(),
            description: self.description.clone(),
            authors: crate::text::copy_strings(&self.authors),
            homepage: crate::text::copy_opt(&self.homepage),
            repository: crate::text::copy_opt(&self.repository),
            documentation: crate::text::copy_opt(&self.documentation),
            license: crate::text::copy_opt(&self.license),
            custom: crate::text::copy_pairs(&self.custom),
            dependencies: self.dependencies.duplicate(),
            patch: self.patch.duplicate(),
            root_path: self.root_path.clone(),
            source_path: self.source_path.clone(),
        }
    }

    /// A package with empty fields.
    pub fn default_model() -> (r: PackageModel)
        ensures
            r.wf(),
    {
        PackageModel {
            name: String::new(),
            version: String::new(),
            edition: String::new(),
            description: String::new(),
            authors: Vec::new(),
            homepage: None,
            repository: None,
            documentation: None,
            license: None,
            custom: Vec::new(),
            dependencies: DependencyTable::new(),
            patch: PatchMap::new(),
            root_path: String::new(),
            source_path: String::new(),
        }
    }
}

impl WorkspaceModel {
    pub open spec fn wf(&self) -> bool {
        self.dependencies.wf() && self.patch.wf()
    }

    /// The position, among the workspace's listed `packages`, of the first
    /// package named `name`.
    pub fn find_package(&self, packages: &Vec<PackageModel>, name: &String) -> (r: Option<usize>)
        ensures
            match r {
                Some(i) => i < packages@.len() && packages@[i as int].name@ == name@
                    && forall|j: int| 0 <= j < i ==> packages@[j].name@ != name@,
                None => forall|j: int| 0 <= j < packages@.len() ==> packages@[j].name@ != name@,
            },
    {
        let mut i: usize = 0;
        while i < packages.len()
            invariant
                i <= packages@.len(),
                forall|j: int| 0 <= j < i ==> packages@[j].name@ != name@,
            decreases packages@.len() - i,
        {
            if packages[i].name == *name {
                return Some(i);
            }
            i = i + 1;
        }
        None
    }

    /// The workspace's own definition of dependency `name`.
    pub fn find_dependency(&self, name: &String) -> (r: Option<DependencyModel>)
        requires
            self.dependencies.wf(),
        ensures
            match r {
                Some(d) => self.dependencies@.contains_key(name@) && d@
                    == self.dependencies@[name@],
                None => !self.dependencies@.contains_key(name@),
            },
    {
        match self.dependencies.get(name) {
            Some(d) => Some(d.duplicate()),
            None => None,
        }
    }
}

impl ManifestModel {
    pub open spec fn wf(&self) -> bool {
        match self {
            ManifestModel::Nexus(n) => n.patch.wf(),
            ManifestModel::Workspace(w) => w.wf(),
            ManifestModel::Package(p) => p.wf(),
        }
    }

    /// The tier's score: a nexus ranks above a workspace, which ranks above
    /// a package.
    pub open spec fn spec_score(&self) -> u8 {
        match self {
            ManifestModel::Nexus(_) => 3,
            ManifestModel::Workspace(_) => 2,
            ManifestModel::Package(_) => 1,
        }
    }

    /// The tier's score.
    pub fn score(&self) -> (r: u8)
        ensures
            r == self.spec_score(),
    {
        match self {
            ManifestModel::Nexus(_) => 3,
            ManifestModel::Workspace(_) => 2,
            ManifestModel::Package(_) => 1,
        }
    }

    /// The name of the manifest.
    pub fn name(&self) -> (r: String)
        ensures
            r@ == match self {
                ManifestModel::Nexus(n) => n.name@,
                ManifestModel::Workspace(w) => w.name@,
                ManifestModel::Package(p) => p.name@,
            },
    {
        match self {
            ManifestModel::Nexus(n) => n.name.clone(),
            ManifestModel::Workspace(w) => w.name.clone(),
            ManifestModel::Package(p) => p.name.clone(),
        }
    }

    /// The directory the manifest lives in.
    pub fn root_path(&self) -> (r: &String)
        ensures
            r@ == match self {
                ManifestModel::Nexus(n) => n.root_path@,
                ManifestModel::Workspace(w) => w.root_path@,
                ManifestModel::Package(p) => p.root_path@,
            },
    {
        match self {
            ManifestModel::Nexus(n) => &n.root_path,
            ManifestModel::Workspace(w) => &w.root_path,
            ManifestModel::Package(p) => &p.root_path,
        }
    }

    /// The manifest's override tables.
    pub open spec fn spec_patch(&self) -> PatchMap {
        match self {
            ManifestModel::Nexus(n) => n.patch,
            ManifestModel::Workspace(w) => w.patch,
            ManifestModel::Package(p) => p.patch,
        }
    }

    /// The manifest's override tables.
    pub fn patch(&self) -> (r: &PatchMap)
        ensures
            r == match self {
                ManifestModel::Nexus(n) => &n.patch,
                ManifestModel::Workspace(w) => &w.patch,
                ManifestModel::Package(p) => &p.patch,
            },
    {
        match self {
            ManifestModel::Nexus(n) => &n.patch,
            ManifestModel::Workspace(w) => &w.patch,
            ManifestModel::Package(p) => &p.patch,
        }
    }
}

} // verus!
