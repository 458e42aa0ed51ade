//! Dependency resolution across the manifests of a nexus.
//!
//! Resolution is a name lookup, not a version solver: a dependency flagged
//! to be located in the nexus is given the path of the one package of that
//! name, and one flagged to use the workspace definition takes the path of
//! the one workspace that defines it. More than one candidate is an error.

use vstd::prelude::*;
use crate::dependency::{DependencyModel, DependencyView};
use crate::models::{ManifestModel, PackageModel, WorkspaceModel};
use crate::paths::{diff_path, maybe_join, path_or_joined, path_relative};
use crate::table::DependencyTable;
use crate::text::views;

verus! {

/// Why a dependency could not be resolved.
#[derive(Debug, Clone, PartialEq, Eq)]
pub enum ResolveError {
    /// More than one package or workspace offers the dependency; the root
    /// directories of all of them.
    Ambiguous { name: String, candidates: Vec<String> },
    /// The workspace definition that the dependency refers to has no path.
    MissingPath { name: String },
    /// No relative path leads from the consumer's directory to the target.
    NoRelativePath { name: String, target: String },
}

/// A [`ResolveError`] as mathematical values.
pub enum ResolveFailure {
    Ambiguous { name: Seq<char>, candidates: Seq<Seq<char>> },
    MissingPath { name: Seq<char> },
    NoRelativePath { name: Seq<char>, target: Seq<char> },
}

impl View for ResolveError {
    type V = ResolveFailure;

    open spec fn view(&self) -> ResolveFailure {
        match self {
            ResolveError::Ambiguous { name, candidates } => ResolveFailure::Ambiguous {
                name: name@,
                candidates: views(candidates@),
            },
            ResolveError::MissingPath { name } => ResolveFailure::MissingPath { name: name@ },
            ResolveError::NoRelativePath { name, target } => ResolveFailure::NoRelativePath {
                name: name@,
                target: target@,
            },
        }
    }
}

/// The packages of `pkgs` named `name`, in order.
pub open spec fn packages_named(pkgs: Seq<PackageModel>, name: Seq<char>) -> Seq<PackageModel>
    decreases pkgs.len(),
{
    if pkgs.len() == 0 {
        Seq::empty()
    } else {
        let rest = packages_named(pkgs.drop_last(), name);
        if pkgs.last().name@ == name {
            rest.push(pkgs.last())
        } else {
            rest
        }
    }
}

/// The workspaces of `wss` whose own table defines `name`, in order.
pub open spec fn workspaces_defining(wss: Seq<WorkspaceModel>, name: Seq<char>) -> Seq<
    WorkspaceModel,
>
    decreases wss.len(),
{
    if wss.len() == 0 {
        Seq::empty()
    } else {
        let rest = workspaces_defining(wss.drop_last(), name);
        if wss.last().dependencies@.contains_key(name) {
            rest.push(wss.last())
        } else {
            rest
        }
    }
}

/// Every workspace that [`workspaces_defining`] keeps defines the name.
pub proof fn lemma_workspaces_defining(wss: Seq<WorkspaceModel>, name: Seq<char>)
    ensures
        forall|j: int| 0 <= j < workspaces_defining(wss, name).len()
            ==> (#[trigger] workspaces_defining(wss, name)[j]).dependencies@.contains_key(name),
    decreases wss.len(),
{
    if wss.len() > 0 {
        lemma_workspaces_defining(wss.drop_last(), name);
    }
}

/// The root directories of `pkgs`.
pub open spec fn package_roots(pkgs: Seq<PackageModel>) -> Seq<Seq<char>> {
    pkgs.map_values(|p: PackageModel| p.root_path@)
}

/// The root directories of `wss`.
pub open spec fn workspace_roots(wss: Seq<WorkspaceModel>) -> Seq<Seq<char>> {
    wss.map_values(|w: WorkspaceModel| w.root_path@)
}

/// `d` with its path set to the way from `root` to `target`.
pub open spec fn relocated(
    name: Seq<char>,
    root: Seq<char>,
    target: Seq<char>,
    d: DependencyView,
) -> Result<DependencyView, ResolveFailure> {
    match path_relative(target, root) {
        Some(rel) => Ok(d.located_at(rel)),
        None => Err(ResolveFailure::NoRelativePath { name, target }),
    }
}

/// Resolution of dependency `name`, declared as `d` by a package whose
/// directory is `root`, against the packages `pkgs` and workspaces `wss`
/// of the nexus.
pub open spec fn resolution(
    pkgs: Seq<PackageModel>,
    wss: Seq<WorkspaceModel>,
    root: Seq<char>,
    name: Seq<char>,
    d: DependencyView,
) -> Result<DependencyView, ResolveFailure> {
    if d.is_nexus() {
        let m = packages_named(pkgs, name);
        if m.len() > 1 {
            Err(ResolveFailure::Ambiguous { name, candidates: package_roots(m) })
        } else if m.len() == 0 {
            Ok(d)
        } else {
            relocated(name, root, m[0].root_path@, d)
        }
    } else if d.is_workspace() {
        let m = workspaces_defining(wss, name);
        if m.len() > 1 {
            Err(ResolveFailure::Ambiguous { name, candidates: workspace_roots(m) })
        } else if m.len() == 0 {
            Ok(d)
        } else {
            match m[0].dependencies@[name].path {
                None => Err(ResolveFailure::MissingPath { name }),
                Some(p) => relocated(name, root, path_or_joined(m[0].root_path@, p), d),
            }
        }
    } else {
        Ok(d)
    }
}

/// The outcome of a resolution, as the caller receives it.
pub open spec fn resolved_as(
    r: Result<DependencyModel, ResolveError>,
    s: Result<DependencyView, ResolveFailure>,
) -> bool {
    match r {
        Ok(d) => s == Ok::<DependencyView, ResolveFailure>(d@),
        Err(e) => s == Err::<DependencyView, ResolveFailure>(e@),
    }
}

/// A dependency located by name, where the nexus holds exactly one package
/// of that name, is given the path from the consumer's directory to that
/// package's directory, and both resolution flags are cleared.
pub proof fn lemma_sole_package_locates(
    pkgs: Seq<PackageModel>,
    wss: Seq<WorkspaceModel>,
    root: Seq<char>,
    name: Seq<char>,
    d: DependencyView,
)
    requires
        d.is_nexus(),
        packages_named(pkgs, name).len() == 1,
        path_relative(packages_named(pkgs, name)[0].root_path@, root) is Some,
    ensures
        ({
            let rel = path_relative(packages_named(pkgs, name)[0].root_path@, root)->Some_0;
            &&& resolution(pkgs, wss, root, name, d) is Ok
            &&& resolution(pkgs, wss, root, name, d)->Ok_0.path == Some(rel)
            &&& resolution(pkgs, wss, root, name, d)->Ok_0.nexus is None
            &&& resolution(pkgs, wss, root, name, d)->Ok_0.workspace is None
            &&& resolution(pkgs, wss, root, name, d) == Ok::<DependencyView, ResolveFailure>(d.located_at(rel))
        }),
{
}

/// Where two or more packages of the nexus share the name of a dependency
/// located by name, resolving it fails as ambiguous and names the
/// directories of all of them.
pub proof fn lemma_shared_name_is_ambiguous(
    pkgs: Seq<PackageModel>,
    wss: Seq<WorkspaceModel>,
    root: Seq<char>,
    name: Seq<char>,
    d: DependencyView,
)
    requires
        d.is_nexus(),
        packages_named(pkgs, name).len() >= 2,
    ensures
        resolution(pkgs, wss, root, name, d) == Err::<DependencyView, ResolveFailure>(
            ResolveFailure::Ambiguous { name, candidates: package_roots(packages_named(pkgs, name)) },
        ),
        package_roots(packages_named(pkgs, name)).len() == packages_named(pkgs, name).len(),
        forall|p: PackageModel| pkgs.contains(p) && p.name@ == name
            ==> package_roots(packages_named(pkgs, name)).contains(p.root_path@),
{
    assert forall|p: PackageModel| pkgs.contains(p) && p.name@ == name
        implies package_roots(packages_named(pkgs, name)).contains(p.root_path@) by {
        lemma_named_contains(pkgs, name, p);
        let j = choose|j: int| 0 <= j < packages_named(pkgs, name).len() && packages_named(pkgs, name)[j] == p;
        assert(package_roots(packages_named(pkgs, name))[j] == p.root_path@);
    }
}

/// A package of `pkgs` named `name` is among [`packages_named`].
pub proof fn lemma_named_contains(pkgs: Seq<PackageModel>, name: Seq<char>, p: PackageModel)
    requires
        pkgs.contains(p),
        p.name@ == name,
    ensures
        packages_named(pkgs, name).contains(p),
    decreases pkgs.len(),
{
    if pkgs.last() == p {
        assert(packages_named(pkgs, name).last() == p);
    } else {
        let j = choose|j: int| 0 <= j < pkgs.len() && pkgs[j] == p;
        assert(pkgs.drop_last()[j] == p);
        lemma_named_contains(pkgs.drop_last(), name, p);
        let r = packages_named(pkgs.drop_last(), name);
        let k = choose|k: int| 0 <= k < r.len() && r[k] == p;
        assert(packages_named(pkgs, name)[k] == p);
    }
}

/// The table of `t` after resolution: each dependency that resolves is
/// replaced by its resolved record, and each that does not is left out.
pub open spec fn resolved_table(
    pkgs: Seq<PackageModel>,
    wss: Seq<WorkspaceModel>,
    root: Seq<char>,
    t: Map<Seq<char>, DependencyView>,
) -> Map<Seq<char>, DependencyView> {
    Map::new(
        |k: Seq<char>| t.contains_key(k) && resolution(pkgs, wss, root, k, t[k]) is Ok,
        |k: Seq<char>| resolution(pkgs, wss, root, k, t[k])->Ok_0,
    )
}

/// Every dependency of `t` resolves, or is optional.
pub open spec fn table_resolves(
    pkgs: Seq<PackageModel>,
    wss: Seq<WorkspaceModel>,
    root: Seq<char>,
    t: Map<Seq<char>, DependencyView>,
) -> bool {
    forall|k: Seq<char>| #[trigger] t.contains_key(k) ==> resolution(pkgs, wss, root, k, t[k]) is Ok
        || t[k].is_optional()
}

/// Some required dependency of `t` fails to resolve with `e`.
pub open spec fn table_fails_with(
    pkgs: Seq<PackageModel>,
    wss: Seq<WorkspaceModel>,
    root: Seq<char>,
    t: Map<Seq<char>, DependencyView>,
    e: ResolveFailure,
) -> bool {
    exists|k: Seq<char>| #[trigger] t.contains_key(k) && !t[k].is_optional()
        && resolution(pkgs, wss, root, k, t[k]) == Err::<DependencyView, ResolveFailure>(e)
}

/// The manifests of a nexus, as loaded for one operation.
#[derive(Debug, Clone)]
pub struct ManifestManager {
    /// Directory of the widest manifest found.
    pub root_path: String,
    /// That manifest.
    pub root_manifest: ManifestModel,
    /// Every package that the root manifest lists.
    pub packages: Vec<PackageModel>,
    /// Every workspace that the root manifest lists.
    pub workspaces: Vec<WorkspaceModel>,
}

impl ManifestManager {
    /// The workspaces' tables are well formed.
    pub open spec fn wf(&self) -> bool {
        forall|i: int| 0 <= i < self.workspaces@.len() ==> (#[trigger] self.workspaces@[i]).dependencies.wf()
    }

    /// The first workspace of the nexus named `name`.
    pub fn get_workspace(&self, name: &String) -> (r: Option<usize>)
        ensures
            match r {
                Some(i) => i < self.workspaces@.len() && self.workspaces@[i as int].name@ == name@
                    && forall|j: int| 0 <= j < i ==> self.workspaces@[j].name@ != name@,
                None => forall|j: int| 0 <= j < self.workspaces@.len() ==> self.workspaces@[j].name@ != name@,
            },
    {
        let mut i: usize = 0;
        while i < self.workspaces.len()
            invariant
                i <= self.workspaces@.len(),
                forall|j: int| 0 <= j < i ==> self.workspaces@[j].name@ != name@,
            decreases self.workspaces@.len() - i,
        {
            if self.workspaces[i].name == *name {
                return Some(i);
            }
            i = i + 1;
        }
        None
    }

    /// The shared dependency table of the workspace named `name`, empty
    /// where the nexus has no such workspace.
    pub fn get_workspace_dependencies(&self, name: &String) -> (r: DependencyTable)
        requires
            self.wf(),
        ensures
            r.wf(),
            match self.get_workspace_spec(name@) {
                Some(i) => r@ == self.workspaces@[i].dependencies@,
                None => r@ == Map::<Seq<char>, DependencyView>::empty(),
            },
    {
        match self.get_workspace(name) {
            Some(i) => {
                proof {
                    self.lemma_get_workspace(name@, i as int);
                }
                self.workspaces[i].dependencies.duplicate()
            },
            None => {
                proof {
                    if self.get_workspace_spec(name@) is Some {
                        let k = self.get_workspace_spec(name@)->Some_0;
                        assert(self.workspaces@[k].name@ == name@);
                    }
                }
                DependencyTable::new()
            },
        }
    }

    /// The position of the first workspace named `n`.
    pub open spec fn get_workspace_spec(&self, n: Seq<char>) -> Option<int> {
        if exists|i: int| 0 <= i < self.workspaces@.len() && #[trigger] self.workspaces@[i].name@ == n {
            Some(choose|i: int| 0 <= i < self.workspaces@.len() && #[trigger] self.workspaces@[i].name@ == n
                && forall|j: int| 0 <= j < i ==> self.workspaces@[j].name@ != n)
        } else {
            None
        }
    }

    proof fn lemma_get_workspace(&self, n: Seq<char>, i: int)
        requires
            0 <= i < self.workspaces@.len(),
            self.workspaces@[i].name@ == n,
            forall|j: int| 0 <= j < i ==> self.workspaces@[j].name@ != n,
        ensures
            self.get_workspace_spec(n) == Some(i),
    {
        assert(self.workspaces@[i].name@ == n);
        let k = choose|k: int| 0 <= k < self.workspaces@.len() && #[trigger] self.workspaces@[k].name@ == n
            && forall|j: int| 0 <= j < k ==> self.workspaces@[j].name@ != n;
        if k < i {
            assert(self.workspaces@[k].name@ != n);
        } else if k > i {
            assert(self.workspaces@[i].name@ != n);
        }
    }

    /// Resolution against this nexus.
    pub open spec fn spec_resolve(&self, root: Seq<char>, name: Seq<char>, d: DependencyView) -> Result<
        DependencyView,
        ResolveFailure,
    > {
        resolution(self.packages@, self.workspaces@, root, name, d)
    }

    /// The root directories of the packages named `name`.
    fn packages_named(&self, name: &String) -> (r: Vec<String>)
        ensures
            views(r@) == package_roots(packages_named(self.packages@, name@)),
    {
        let mut r: Vec<String> = Vec::new();
        let mut i: usize = 0;
        while i < self.packages.len()
            invariant
                i <= self.packages@.len(),
                views(r@) == package_roots(packages_named(self.packages@.subrange(0, i as int), name@)),
            decreases self.packages@.len() - i,
        {
            let ghost before = r@;
            let p = &self.packages[i];
            assert(self.packages@.subrange(0, i + 1).drop_last() =~= self.packages@.subrange(0, i as int));
            if p.name == *name {
                r.push(p.root_path.clone());
                assert(views(r@) =~= views(before).push(p.root_path@));
                assert(package_roots(packages_named(self.packages@.subrange(0, i as int), name@).push(*p))
                    =~= package_roots(packages_named(self.packages@.subrange(0, i as int), name@)).push(p.root_path@));
            }
            i = i + 1;
        }
        assert(self.packages@.subrange(0, self.packages@.len() as int) =~= self.packages@);
        r
    }

    /// The positions of the workspaces whose table defines `name`.
    fn workspaces_defining(&self, name: &String) -> (r: Vec<usize>)
        requires
            self.wf(),
        ensures
            r@.len() == workspaces_defining(self.workspaces@, name@).len(),
            forall|j: int| 0 <= j < r@.len() ==> (#[trigger] r@[j]) < self.workspaces@.len()
                && self.workspaces@[r@[j] as int] == workspaces_defining(self.workspaces@, name@)[j],
    {
        let mut r: Vec<usize> = Vec::new();
        let mut i: usize = 0;
        while i < self.workspaces.len()
            invariant
                self.wf(),
                i <= self.workspaces@.len(),
                r@.len() == workspaces_defining(self.workspaces@.subrange(0, i as int), name@).len(),
                forall|j: int| 0 <= j < r@.len() ==> (#[trigger] r@[j]) < i
                    && self.workspaces@[r@[j] as int] == workspaces_defining(self.workspaces@.subrange(0, i as int), name@)[j],
            decreases self.workspaces@.len() - i,
        {
            assert(self.workspaces@.subrange(0, i + 1).drop_last() =~= self.workspaces@.subrange(0, i as int));
            assert(self.workspaces@[i as int].dependencies.wf());
            if self.workspaces[i].dependencies.contains_key(name) {
                r.push(i);
            }
            i = i + 1;
        }
        assert(self.workspaces@.subrange(0, self.workspaces@.len() as int) =~= self.workspaces@);
        r
    }

    /// `d` with its path set to the way from `root` to `target`.
    fn relocate(name: &String, root: &String, target: String, d: &DependencyModel) -> (r: Result<DependencyModel, ResolveError>)
        ensures
            resolved_as(r, relocated(name@, root@, target@, d@)),
    {
        match diff_path(root, &target) {
            Some(rel) => Ok(d.located_at(rel)),
            None => Err(ResolveError::NoRelativePath { name: name.clone(), target }),
        }
    }

    /// Resolves dependency `name`, declared as `dep` by the package whose
    /// directory is `root`.
    pub fn resolve_dependency(&self, root: &String, name: &String, dep: &DependencyModel) -> (r: Result<DependencyModel, ResolveError>)
        requires
            self.wf(),
        ensures
            resolved_as(r, self.spec_resolve(root@, name@, dep@)),
    {
        if dep.nexus() {
            let m = self.packages_named(name);
            let ghost ms = packages_named(self.packages@, name@);
            assert(views(m@).len() == m@.len());
            if m.len() > 1 {
                return Err(ResolveError::Ambiguous { name: name.clone(), candidates: m });
            } else if m.len() == 0 {
                return Ok(dep.duplicate());
            }
            assert(views(m@)[0] == m@[0]@);
            let target = m[0].clone();
            return ManifestManager::relocate(name, root, target, dep);
        }
        if dep.workspace() {
            let m = self.workspaces_defining(name);
            let ghost ms = workspaces_defining(self.workspaces@, name@);
            if m.len() > 1 {
                let mut roots: Vec<String> = Vec::new();
                let mut j: usize = 0;
                while j < m.len()
                    invariant
                        j <= m@.len(),
                        m@.len() == ms.len(),
                        forall|k: int| 0 <= k < m@.len() ==> (#[trigger] m@[k]) < self.workspaces@.len()
                            && self.workspaces@[m@[k] as int] == ms[k],
                        views(roots@) == workspace_roots(ms.subrange(0, j as int)),
                    decreases m@.len() - j,
                {
                    let ghost before = roots@;
                    roots.push(self.workspaces[m[j]].root_path.clone());
                    assert(views(roots@) =~= views(before).push(ms[j as int].root_path@));
                    assert(workspace_roots(ms.subrange(0, j + 1)) =~= workspace_roots(ms.subrange(0, j as int)).push(ms[j as int].root_path@));
                    j = j + 1;
                }
                assert(ms.subrange(0, ms.len() as int) =~= ms);
                return Err(ResolveError::Ambiguous { name: name.clone(), candidates: roots });
            } else if m.len() == 0 {
                return Ok(dep.duplicate());
            }
            let ws = &self.workspaces[m[0]];
            assert(ws.dependencies.wf());
            proof {
                lemma_workspaces_defining(self.workspaces@, name@);
            }
            let shared = ws.dependencies.get(name);
            match shared {
                None => {
                    return Err(ResolveError::MissingPath { name: name.clone() });
                },
                Some(d1) => match &d1.path {
                    None => {
                        return Err(ResolveError::MissingPath { name: name.clone() });
                    },
                    Some(p) => {
                        let target = maybe_join(&ws.root_path, p);
                        return ManifestManager::relocate(name, root, target, dep);
                    },
                },
            }
        }
        Ok(dep.duplicate())
    }

    /// The table `deps` of the package whose directory is `root`, resolved:
    /// a dependency that fails to resolve is dropped where it is optional,
    /// and fails the whole table where it is required.
    pub fn resolve_table(&self, root: &String, deps: &DependencyTable) -> (r: Result<DependencyTable, ResolveError>)
        requires
            self.wf(),
            deps.wf(),
        ensures
            match r {
                Ok(t) => {
                    &&& t.wf()
                    &&& table_resolves(self.packages@, self.workspaces@, root@, deps@)
                    &&& t@ == resolved_table(self.packages@, self.workspaces@, root@, deps@)
                },
                Err(e) => table_fails_with(self.packages@, self.workspaces@, root@, deps@, e@),
            },
    {
        let ghost t = *deps;
        let mut out = DependencyTable::new();
        let mut i: usize = 0;
        while i < deps.entries.len()
            invariant
                self.wf(),
                *deps == t,
                t.wf(),
                out.wf(),
                i <= t.entries@.len(),
                forall|k: Seq<char>| #[trigger] out@.contains_key(k) <==> (t@.contains_key(k) && t.index_of(k) < i
                    && self.spec_resolve(root@, k, t@[k]) is Ok),
                forall|k: Seq<char>| #[trigger] out@.contains_key(k) ==> out@[k] == self.spec_resolve(root@, k, t@[k])->Ok_0,
                forall|j: int| 0 <= j < i ==> #[trigger] self.spec_resolve(root@, t.key(j), t@[t.key(j)]) is Ok
                    || t@[t.key(j)].is_optional(),
            decreases t.entries@.len() - i,
        {
            let (name, dep) = &deps.entries[i];
            proof {
                t.lemma_entry(i as int);
            }
            let res = self.resolve_dependency(root, name, dep);
            match res {
                Ok(d) => {
                    out.insert(name.clone(), d);
                },
                Err(e) => {
                    if !dep.optional() {
                        return Err(e);
                    }
                },
            }
            proof {
                assert forall|k: Seq<char>| #[trigger] out@.contains_key(k) <==> (t@.contains_key(k) && t.index_of(k) < i + 1
                    && self.spec_resolve(root@, k, t@[k]) is Ok) by {
                    if t@.contains_key(k) && t.index_of(k) == i {
                        assert(t.key(t.index_of(k)) == k);
                    }
                }
            }
            i = i + 1;
        }
        proof {
            assert forall|k: Seq<char>| #[trigger] t@.contains_key(k) implies self.spec_resolve(root@, k, t@[k]) is Ok
                || t@[k].is_optional() by {
                let j = t.index_of(k);
                assert(t.key(j) == k);
            }
            assert forall|k: Seq<char>| #[trigger] out@.contains_key(k) == resolved_table(self.packages@, self.workspaces@, root@, t@).contains_key(k) by {
                if t@.contains_key(k) {
                    let j = t.index_of(k);
                    assert(t.key(j) == k);
                }
            }
            assert(out@ =~= resolved_table(self.packages@, self.workspaces@, root@, t@));
        }
        Ok(out)
    }

    /// Resolves every dependency of `package`. A dependency that fails to
    /// resolve is dropped where it is optional; where it is required the
    /// whole operation fails and `package` is left as it was.
    pub fn resolve_package_dependencies(&self, package: &mut PackageModel) -> (r: Result<(), ResolveError>)
        requires
            self.wf(),
            old(package).dependencies.wf(),
        ensures
            final(package).dependencies.wf(),
            match r {
                Ok(()) => {
                    &&& table_resolves(self.packages@, self.workspaces@, old(package).root_path@, old(package).dependencies@)
                    &&& final(package).dependencies@ == resolved_table(self.packages@, self.workspaces@, old(package).root_path@, old(package).dependencies@)
                    &&& *final(package) == (PackageModel { dependencies: final(package).dependencies, ..*old(package) })
                },
                Err(e) => {
                    &&& table_fails_with(self.packages@, self.workspaces@, old(package).root_path@, old(package).dependencies@, e@)
                    &&& *final(package) == *old(package)
                },
            },
    {
        let t = self.resolve_table(&package.root_path, &package.dependencies)?;
        package.dependencies = t;
        Ok(())
    }
}

/// Whether every dependency of `p` resolves, or is optional.
pub open spec fn package_resolves(m: ManifestManager, p: PackageModel) -> bool {
    table_resolves(m.packages@, m.workspaces@, p.root_path@, p.dependencies@)
}

/// Checks that the dependencies of every package in `packages` resolve
/// against the nexus of `manager`, or are optional.
pub fn check(manager: &ManifestManager, packages: &Vec<PackageModel>) -> (r: Result<(), ResolveError>)
    requires
        manager.wf(),
        forall|i: int| 0 <= i < packages@.len() ==> (#[trigger] packages@[i]).dependencies.wf(),
    ensures
        r is Ok <==> forall|i: int| 0 <= i < packages@.len() ==> package_resolves(*manager, #[trigger] packages@[i]),
        r matches Err(e) ==> exists|i: int| 0 <= i < packages@.len() && table_fails_with(manager.packages@,
            manager.workspaces@, (#[trigger] packages@[i]).root_path@, packages@[i].dependencies@, e@),
{
    let mut i: usize = 0;
    while i < packages.len()
        invariant
            manager.wf(),
            i <= packages@.len(),
            forall|j: int| 0 <= j < packages@.len() ==> (#[trigger] packages@[j]).dependencies.wf(),
            forall|j: int| 0 <= j < i ==> package_resolves(*manager, #[trigger] packages@[j]),
        decreases packages@.len() - i,
    {
        let p = &packages[i];
        match manager.resolve_table(&p.root_path, &p.dependencies) {
            Ok(_) => {},
            Err(e) => {
                proof {
                    let k = choose|k: Seq<char>| #[trigger] p.dependencies@.contains_key(k)
                        && !p.dependencies@[k].is_optional()
                        && resolution(manager.packages@, manager.workspaces@, p.root_path@, k,
                            p.dependencies@[k]) == Err::<DependencyView, ResolveFailure>(e@);
                    assert(!package_resolves(*manager, packages@[i as int]));
                }
                return Err(e);
            },
        }
        i = i + 1;
    }
    Ok(())
}

} // verus!
