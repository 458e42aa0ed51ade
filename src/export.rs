//! The export engine: flattens a package or workspace and every local
//! package it transitively depends on into one directory of links.
//!
//! The engine is a state machine. The caller asks it for the next action
//! with [`Exporter::step`], performs what the action asks of the filesystem
//! (canonicalize a path, load the packages of a directory), and hands the
//! outcome back as the next event. Links are recorded, not made: once the
//! engine has finished, [`Exporter::links`] lists what to create, each source
//! directory and each package name at most once.

use vstd::prelude::*;
use crate::dependency::DependencyModel;
use crate::manager::{ManifestManager, ResolveError};
use crate::models::{ManifestModel, PackageModel, PatchMap, WorkspaceModel};
use crate::paths::{is_absolute, join_path, maybe_join, path_is_absolute, path_joined, path_or_joined};
use crate::table::DependencyTable;
use crate::text::{contains_str, copy_opt, copy_strings, lemma_sorted_permutation_unique, slash_join, sort_text, sorted_text, views};
use crate::generator::CARGO_MANIFEST;
use crate::dependency::DependencyView;

verus! {

/// Options of an export.
#[derive(Debug, Clone)]
pub struct ExportOptions {
    /// The package or workspace directory to export.
    pub package_path: String,
    /// Where to export to; the caller's `target/export` where absent.
    pub export_dir: Option<String>,
    /// Name of the subdirectory that holds the links.
    pub crates_dir: String,
    /// Copy the lock file, if there is one.
    pub copy_lock: bool,
    /// Link or copy the build tool's configuration directory, if there is one.
    pub include_cargo_dir: bool,
    /// Link that directory rather than copy it.
    pub symlink_cargo_dir: bool,
    /// Empty the export directory first.
    pub clean: bool,
}

impl Default for ExportOptions {
    fn default() -> (r: ExportOptions)
        ensures
            r.package_path@ == seq!['.'],
            r.export_dir is None,
            r.crates_dir@ == seq!['c', 'r', 'a', 't', 'e', 's'],
            r.copy_lock && r.include_cargo_dir && r.symlink_cargo_dir && r.clean,
    {
        proof {
            reveal_strlit(".");
            reveal_strlit("crates");
        }
        ExportOptions {
            package_path: ".".to_string(),
            export_dir: None,
            crates_dir: "crates".to_string(),
            copy_lock: true,
            include_cargo_dir: true,
            symlink_cargo_dir: true,
            clean: true,
        }
    }
}

/// A link to create: `target` is to point at directory `source`.
#[derive(Debug, Clone, PartialEq, Eq)]
pub struct LinkRequest {
    pub source: String,
    pub target: String,
}

/// Why an export failed.
#[derive(Debug, Clone, PartialEq, Eq)]
pub enum ExportError {
    /// A dependency of a package that the export starts from, or of an
    /// override, did not resolve.
    Resolve(ResolveError),
    /// The path of dependency `name` could not be canonicalized.
    Canonicalize { name: String },
    /// The event does not answer the action that the engine asked for.
    UnexpectedEvent,
}

/// What the engine asks the caller to do next.
#[derive(Debug, Clone, PartialEq, Eq)]
pub enum ExportAction {
    /// Nothing: call `step` again with `Proceed`.
    Continue,
    /// Canonicalize this path and answer with `Canonical`.
    Canonicalize(String),
    /// Load the manifest in this directory, list its packages and answer
    /// with `Packages`.
    LoadPackages(String),
    /// The walk is complete.
    Finished,
}

/// The caller's answer to the previous action.
#[derive(Debug, Clone)]
pub enum ExportEvent {
    /// Answers `Continue`, and starts the engine.
    Proceed,
    /// The canonical path, `None` where canonicalizing failed.
    Canonical(Option<String>),
    /// The packages, `None` where the manifest could not be loaded or listed.
    Packages(Option<Vec<PackageModel>>),
}

/// A package whose dependencies are being followed.
#[derive(Debug, Clone)]
pub struct PackageFrame {
    pub package: PackageModel,
    /// Whether the package has been linked and recorded.
    pub entered: bool,
    /// The next dependency to look at.
    pub next_dep: usize,
    /// Dependencies linked from this package: name and canonical path.
    pub queue: Vec<(String, String)>,
    /// The next queued dependency whose packages to visit.
    pub next_queued: usize,
    /// Whether the package was reached through another's dependencies, so
    /// that a failure skips it instead of failing the export.
    pub nested: bool,
}

/// Where the engine stands.
#[derive(Debug, Clone, Copy, PartialEq, Eq)]
pub enum ExportPhase {
    /// Visiting packages.
    Walk,
    /// Going through the override tables: source and entry positions.
    Patches { registry: usize, entry: usize },
    /// Finished.
    Done,
}

/// What the engine waits for.
#[derive(Debug, Clone, PartialEq, Eq)]
pub enum Awaiting {
    Nothing,
    /// The canonical path of dependency `name`.
    Canonical { name: String },
    /// The packages of the directory last queued.
    Packages,
}

/// The state of an export.
#[derive(Debug, Clone)]
pub struct Exporter {
    pub manifest: ManifestModel,
    pub manager: ManifestManager,
    /// Directory of the nexus root, against which overrides are read.
    pub root_path: String,
    pub export_dir: String,
    pub export_crates_dir: String,
    pub crates_dir_name: String,
    /// Canonical directories linked so far.
    pub processed_paths: Vec<String>,
    /// Package names linked so far, one for each directory.
    pub processed_crates: Vec<String>,
    /// Member declarations of the exported workspace, one for each link.
    pub workspace_members: Vec<String>,
    /// Links to create, one for each directory.
    pub links: Vec<LinkRequest>,
    /// Directories whose dependencies have been followed.
    pub scanned_paths: Vec<String>,
    /// Packages skipped because a package of the same name at another
    /// directory was linked first.
    pub conflicts: Vec<LinkRequest>,
    /// Failures that skipped a package reached through dependencies.
    pub skipped: Vec<ExportError>,
    /// The override tables as they were found.
    pub patch_source: PatchMap,
    /// The override tables, rewritten to point into the export.
    pub patch: PatchMap,
    pub stack: Vec<PackageFrame>,
    pub phase: ExportPhase,
    pub awaiting: Awaiting,
}

/// The member declaration for package `name` in directory `dir`.
pub open spec fn member_of(dir: Seq<char>, name: Seq<char>) -> Seq<char> {
    dir + seq!['/'] + name
}

impl Exporter {
    /// Every linked directory and every linked name occurs once, and the
    /// links, names, directories and members correspond position by position.
    pub open spec fn links_consistent(&self) -> bool {
        let n = self.links@.len();
        &&& self.processed_paths@.len() == n
        &&& self.processed_crates@.len() == n
        &&& self.workspace_members@.len() == n
        &&& views(self.processed_paths@).no_duplicates()
        &&& views(self.processed_crates@).no_duplicates()
        &&& forall|i: int| 0 <= i < n ==> {
            &&& (#[trigger] self.links@[i]).source@ == self.processed_paths@[i]@
            &&& self.links@[i].target@ == path_joined(self.export_crates_dir@, self.processed_crates@[i]@)
            &&& self.workspace_members@[i]@ == member_of(self.crates_dir_name@, self.processed_crates@[i]@)
        }
    }

    pub open spec fn frames_wf(&self) -> bool {
        forall|i: int| 0 <= i < self.stack@.len() ==> self.frame_wf(#[trigger] self.stack@[i])
    }

    /// A frame's cursors are in range, and each dependency it queued was linked.
    pub open spec fn frame_wf(&self, f: PackageFrame) -> bool {
        &&& f.package.dependencies.wf()
        &&& f.next_dep <= f.package.dependencies.entries@.len()
        &&& f.next_queued <= f.queue@.len()
        &&& forall|j: int| 0 <= j < f.queue@.len() ==> views(self.processed_paths@).contains(
            #[trigger] f.queue@[j].1@,
        )
    }

    pub open spec fn phase_wf(&self) -> bool {
        match self.phase {
            ExportPhase::Walk => true,
            ExportPhase::Patches { registry, entry } => {
                &&& registry <= self.patch_source.registries@.len()
                &&& registry < self.patch_source.registries@.len()
                    ==> entry <= self.patch_source.registries@[registry as int].1.entries@.len()
                &&& self.stack@.len() == 0
            },
            ExportPhase::Done => self.stack@.len() == 0,
        }
    }

    pub open spec fn awaiting_wf(&self) -> bool {
        match self.awaiting {
            Awaiting::Nothing => true,
            Awaiting::Canonical { name } => match self.phase {
                ExportPhase::Walk => self.stack@.len() > 0 && !views(self.processed_crates@).contains(name@),
                ExportPhase::Patches { registry, entry } => registry < self.patch_source.registries@.len()
                    && !views(self.processed_crates@).contains(name@),
                ExportPhase::Done => false,
            },
            Awaiting::Packages => self.phase == ExportPhase::Walk && self.stack@.len() > 0,
        }
    }

    /// The engine's invariant.
    pub open spec fn wf(&self) -> bool {
        &&& self.manager.wf()
        &&& self.patch.wf()
        &&& self.patch_source.wf()
        &&& self.patch.registries@.len() == self.patch_source.registries@.len()
        &&& self.links_consistent()
        &&& views(self.scanned_paths@).no_duplicates()
        &&& self.frames_wf()
        &&& self.phase_wf()
        &&& self.awaiting_wf()
    }

    /// What was recorded before is still recorded, at the same positions.
    pub open spec fn extends(&self, o: Exporter) -> bool {
        &&& o.links@.len() <= self.links@.len()
        &&& forall|i: int| 0 <= i < o.links@.len() ==> #[trigger] self.links@[i] == o.links@[i]
        &&& forall|i: int| 0 <= i < o.links@.len() ==> #[trigger] self.processed_crates@[i] == o.processed_crates@[i]
        &&& forall|i: int| 0 <= i < o.links@.len() ==> #[trigger] self.processed_paths@[i] == o.processed_paths@[i]
        &&& self.export_crates_dir == o.export_crates_dir
        &&& self.crates_dir_name == o.crates_dir_name
        &&& self.manager == o.manager
        &&& self.manifest == o.manifest
        &&& self.export_dir == o.export_dir
        &&& self.root_path == o.root_path
        &&& self.patch_source == o.patch_source
    }

    /// A new engine that exports `manifest`, whose packages are `packages`,
    /// within the nexus of `manager`.
    pub fn new(
        manifest: ManifestModel,
        packages: Vec<PackageModel>,
        manager: ManifestManager,
        export_dir: String,
        crates_dir: String,
    ) -> (r: Exporter)
        requires
            manager.wf(),
            manager.root_manifest.wf(),
            forall|i: int| 0 <= i < packages@.len() ==> (#[trigger] packages@[i]).dependencies.wf(),
            manifest matches ManifestModel::Package(p) ==> p.dependencies.wf(),
        ensures
            r.wf(),
            r.links@.len() == 0,
            r.phase == ExportPhase::Walk,
            r.awaiting == Awaiting::Nothing,
            r.export_crates_dir@ == path_joined(export_dir@, crates_dir@),
            r.crates_dir_name == crates_dir,
            r.root_path == manager.root_path,
            r.manager == manager,
            r.manifest == manifest,
            r.export_dir == export_dir,
            r.patch.same_as(manager.root_manifest.spec_patch()),
            r.patch_source.same_as(manager.root_manifest.spec_patch()),
            r.stack@.len() == packages@.len() + if manifest is Package { 1int } else { 0int },
            forall|i: int| 0 <= i < packages@.len() ==> {
                &&& (#[trigger] r.stack@[i]).package == packages@[packages@.len() - 1 - i]
                &&& !r.stack@[i].entered
                &&& !r.stack@[i].nested
            },
            manifest matches ManifestModel::Package(p) ==> {
                &&& r.stack@.last().package.name == p.name
                &&& r.stack@.last().package.root_path == p.root_path
                &&& r.stack@.last().package.dependencies@ == p.dependencies@
                &&& !r.stack@.last().entered
                &&& !r.stack@.last().nested
            },
    {
        let export_crates_dir = join_path(&export_dir, &crates_dir);
        let patch = manager.root_manifest.patch().duplicate();
        let patch_source = manager.root_manifest.patch().duplicate();
        // Frames are taken from the top: the first package goes last.
        let mut stack: Vec<PackageFrame> = Vec::new();
        let ghost orig = packages@;
        let mut list = packages;
        while list.len() > 0
            invariant
                list@.len() <= orig.len(),
                list@ == orig.subrange(0, list@.len() as int),
                forall|i: int| 0 <= i < orig.len() ==> (#[trigger] orig[i]).dependencies.wf(),
                stack@.len() + list@.len() == orig.len(),
                forall|i: int| 0 <= i < stack@.len() ==> {
                    &&& (#[trigger] stack@[i]).package == orig[orig.len() - 1 - i]
                    &&& !stack@[i].entered
                    &&& !stack@[i].nested
                    &&& stack@[i].next_dep == 0
                    &&& stack@[i].queue@.len() == 0
                    &&& stack@[i].next_queued == 0
                },
            decreases list@.len(),
        {
            let ghost before = stack@;
            let p = list.pop().unwrap();
            assert(p == orig[list@.len() as int]);
            assert(list@ =~= orig.subrange(0, list@.len() as int));
            stack.push(PackageFrame {
                package: p,
                entered: false,
                next_dep: 0,
                queue: Vec::new(),
                next_queued: 0,
                nested: false,
            });
            assert forall|i: int| 0 <= i < stack@.len() - 1 implies #[trigger] stack@[i] == before[i] by {}
        }
        let ghost n = stack@.len();
        match &manifest {
            ManifestModel::Package(p) => {
                let frame = PackageFrame {
                    package: copy_package(p),
                    entered: false,
                    next_dep: 0,
                    queue: Vec::new(),
                    next_queued: 0,
                    nested: false,
                };
                stack.push(frame);
            },
            _ => {},
        }
        let root_path = manager.root_path.clone();
        proof {
            assert forall|i: int| 0 <= i < stack@.len() implies {
                &&& (#[trigger] stack@[i]).package.dependencies.wf()
                &&& stack@[i].next_dep == 0
                &&& stack@[i].queue@.len() == 0
                &&& stack@[i].next_queued == 0
            } by {
                if i < n {
                    assert(orig[orig.len() - 1 - i].dependencies.wf());
                }
            }
        }
        let r = Exporter {
            manifest,
            manager,
            root_path,
            export_dir,
            export_crates_dir,
            crates_dir_name: crates_dir,
            processed_paths: Vec::new(),
            processed_crates: Vec::new(),
            workspace_members: Vec::new(),
            links: Vec::new(),
            scanned_paths: Vec::new(),
            conflicts: Vec::new(),
            skipped: Vec::new(),
            patch_source,
            patch,
            stack,
            phase: ExportPhase::Walk,
            awaiting: Awaiting::Nothing,
        };
        assert(views(r.processed_paths@) =~= Seq::empty());
        assert(views(r.processed_crates@) =~= Seq::empty());
        assert(views(r.scanned_paths@) =~= Seq::empty());
        r
    }
}

/// Whether a dependency is a local one: it has a path, or is located by
/// name, or takes the workspace's definition.
pub open spec fn is_local(d: DependencyView) -> bool {
    d.path is Some || d.is_workspace() || d.is_nexus()
}

/// `n` records, after `o`, a link for package `name` at directory `src`.
pub open spec fn link_added(o: Exporter, n: Exporter, name: Seq<char>, src: Seq<char>) -> bool {
    &&& n.links@.len() == o.links@.len() + 1
    &&& views(n.processed_crates@) == views(o.processed_crates@).push(name)
    &&& views(n.processed_paths@) == views(o.processed_paths@).push(src)
}

/// `n` records no link beyond those of `o`.
pub open spec fn no_link_added(o: Exporter, n: Exporter) -> bool {
    &&& n.links@ == o.links@
    &&& n.processed_crates@ == o.processed_crates@
    &&& n.processed_paths@ == o.processed_paths@
}

/// The top frame of `n` is that of `o`, its next dependency one further on.
pub open spec fn dep_passed(o: Exporter, n: Exporter) -> bool {
    &&& n.stack@.len() == o.stack@.len()
    &&& n.stack@.last().package == o.stack@.last().package
    &&& n.stack@.last().next_dep == o.stack@.last().next_dep + 1
}

/// The effect of working on the top frame of `o`, giving `n` and `r`.
pub open spec fn top_advanced(o: Exporter, n: Exporter, r: Result<ExportAction, ExportError>) -> bool {
    let f = o.stack@.last();
    let root = f.package.root_path@;
    let name = f.package.name@;
    if !f.entered {
        if views(o.scanned_paths@).contains(root) {
            r == Ok::<ExportAction, ExportError>(ExportAction::Continue) && n.stack@ == o.stack@.drop_last() && no_link_added(o, n)
        } else if !views(o.processed_paths@).contains(root) && views(o.processed_crates@).contains(name) {
            &&& r == Ok::<ExportAction, ExportError>(ExportAction::Continue)
            &&& n.stack@ == o.stack@.drop_last()
            &&& no_link_added(o, n)
            &&& n.conflicts@.len() == o.conflicts@.len() + 1
            &&& n.conflicts@.last().source@ == root
        } else {
            &&& r == Ok::<ExportAction, ExportError>(ExportAction::Continue)
            &&& views(n.scanned_paths@) == views(o.scanned_paths@).push(root)
            &&& n.stack@.len() == o.stack@.len()
            &&& n.stack@.last().package == f.package
            &&& n.stack@.last().entered
            &&& if views(o.processed_paths@).contains(root) { no_link_added(o, n) } else { link_added(o, n, name, root) }
        }
    } else if f.next_dep < f.package.dependencies.entries@.len() {
        let e = f.package.dependencies.entries@[f.next_dep as int];
        let res = o.manager.spec_resolve(root, e.0@, e.1@);
        &&& no_link_added(o, n)
        &&& if views(o.processed_crates@).contains(e.0@) || !is_local(e.1@) {
            r == Ok::<ExportAction, ExportError>(ExportAction::Continue) && dep_passed(o, n)
        } else {
            match res {
                Err(x) => if f.nested {
                    r == Ok::<ExportAction, ExportError>(ExportAction::Continue) && n.stack@ == o.stack@.drop_last()
                } else {
                    r matches Err(ExportError::Resolve(y)) && y@ == x
                },
                Ok(d) => match d.path {
                    None => r == Ok::<ExportAction, ExportError>(ExportAction::Continue) && dep_passed(o, n),
                    Some(p) => {
                        &&& r matches Ok(ExportAction::Canonicalize(q)) && q@ == path_or_joined(root, p)
                        &&& n.awaiting == (Awaiting::Canonical { name: e.0 })
                        &&& dep_passed(o, n)
                    },
                },
            }
        }
    } else if f.next_queued < f.queue@.len() {
        &&& r == Ok::<ExportAction, ExportError>(ExportAction::LoadPackages(f.queue@[f.next_queued as int].1))
        &&& n.awaiting is Packages
        &&& no_link_added(o, n)
        &&& n.stack@.len() == o.stack@.len()
        &&& n.stack@.last().next_queued == f.next_queued + 1
    } else {
        r == Ok::<ExportAction, ExportError>(ExportAction::Continue) && n.stack@ == o.stack@.drop_last() && no_link_added(o, n)
    }
}

/// The effect of the canonical path `res` of the dependency that `o`
/// waits for, giving `n` and `r`.
pub open spec fn canonical_handled(o: Exporter, res: Option<String>, n: Exporter, r: Result<ExportAction, ExportError>) -> bool {
    let name = match o.awaiting {
        Awaiting::Canonical { name } => name,
        _ => o.crates_dir_name,
    };
    &&& n.awaiting is Nothing
    &&& n.phase == o.phase
    &&& match res {
        None => if o.phase == ExportPhase::Walk && o.stack@.last().nested {
            r == Ok::<ExportAction, ExportError>(ExportAction::Continue) && n.stack@ == o.stack@.drop_last() && no_link_added(o, n)
        } else {
            r == Err::<ExportAction, ExportError>(ExportError::Canonicalize { name })
        },
        Some(c) => {
            &&& r == Ok::<ExportAction, ExportError>(ExportAction::Continue)
            &&& if views(o.processed_paths@).contains(c@) {
                no_link_added(o, n)
            } else {
                &&& link_added(o, n, name@, c@)
                &&& o.phase == ExportPhase::Walk ==> n.stack@.last().queue@ == o.stack@.last().queue@.push((name, c))
            }
        },
    }
}

/// The effect of entry `entry` of override table `registry`, giving `n`
/// and `r`.
pub open spec fn patch_advanced(o: Exporter, registry: int, entry: int, n: Exporter, r: Result<ExportAction, ExportError>) -> bool {
    if registry >= o.patch_source.registries@.len() {
        &&& r == Ok::<ExportAction, ExportError>(ExportAction::Finished)
        &&& n.phase == ExportPhase::Done
        &&& no_link_added(o, n)
        &&& n.patch.registries@ == o.patch.registries@
    } else if entry >= o.patch_source.registries@[registry].1.entries@.len() {
        &&& r == Ok::<ExportAction, ExportError>(ExportAction::Continue)
        &&& n.phase == (ExportPhase::Patches { registry: (registry + 1) as usize, entry: 0 })
        &&& no_link_added(o, n)
        &&& n.patch.registries@ == o.patch.registries@
    } else {
        let e = o.patch_source.registries@[registry].1.entries@[entry];
        let res = o.manager.spec_resolve(o.root_path@, e.0@, e.1@);
        &&& no_link_added(o, n)
        &&& n.phase == (ExportPhase::Patches { registry: registry as usize, entry: (entry + 1) as usize })
        &&& if views(o.processed_crates@).contains(e.0@) || e.1@.path is None || path_is_absolute(e.1@.path->Some_0) {
            r == Ok::<ExportAction, ExportError>(ExportAction::Continue) && n.patch.registries@ == o.patch.registries@
        } else {
            match res {
                Err(x) => r matches Err(ExportError::Resolve(y)) && y@ == x && n.patch.registries@ == o.patch.registries@,
                Ok(d) => {
                    &&& n.patch.registries@[registry].1@ == o.patch.registries@[registry].1@.insert(
                        e.0@,
                        DependencyView { path: Some(member_of(o.crates_dir_name@, e.0@)), ..e.1@ },
                    )
                    &&& other_patches_kept(o, n, registry)
                    &&& match d.path {
                        None => r == Ok::<ExportAction, ExportError>(ExportAction::Continue),
                        Some(p) => r matches Ok(ExportAction::Canonicalize(q)) && q@ == path_or_joined(o.root_path@, p)
                            && n.awaiting == (Awaiting::Canonical { name: e.0 }),
                    }
                },
            }
        }
    }
}

/// The override tables of `n` are those of `o`, but for the table of
/// source `registry`: same sources, in the same order.
pub open spec fn other_patches_kept(o: Exporter, n: Exporter, registry: int) -> bool {
    &&& n.patch.registries@.len() == o.patch.registries@.len()
    &&& forall|j: int| 0 <= j < o.patch.registries@.len() ==> (#[trigger] n.patch.registries@[j]).0 == o.patch.registries@[j].0
    &&& forall|j: int| 0 <= j < o.patch.registries@.len() && j != registry
        ==> (#[trigger] n.patch.registries@[j]).1@ == o.patch.registries@[j].1@
}

/// The effect of the packages `res` of the directory that `o` waits for:
/// each becomes a frame, the first on top.
pub open spec fn packages_handled(o: Exporter, res: Option<Vec<PackageModel>>, n: Exporter, r: Result<ExportAction, ExportError>) -> bool {
    &&& r == Ok::<ExportAction, ExportError>(ExportAction::Continue)
    &&& n.awaiting is Nothing
    &&& no_link_added(o, n)
    &&& match res {
        None => n.stack@ == o.stack@,
        Some(v) => {
            &&& n.stack@.len() == o.stack@.len() + v@.len()
            &&& forall|i: int| 0 <= i < o.stack@.len() ==> #[trigger] n.stack@[i] == o.stack@[i]
            &&& forall|i: int| 0 <= i < v@.len() ==> {
                &&& (#[trigger] n.stack@[o.stack@.len() + i]).package == v@[v@.len() - 1 - i]
                &&& !n.stack@[o.stack@.len() + i].entered
                &&& n.stack@[o.stack@.len() + i].nested
                &&& n.stack@[o.stack@.len() + i].next_dep == 0
                &&& n.stack@[o.stack@.len() + i].queue@.len() == 0
            }
        },
    }
}

impl Exporter {
    /// Records a link from the export to directory `source` for package `name`.
    fn record_link(&mut self, name: String, source: String)
        requires
            old(self).links_consistent(),
            !views(old(self).processed_crates@).contains(name@),
            !views(old(self).processed_paths@).contains(source@),
        ensures
            final(self).links_consistent(),
            final(self).processed_crates@ == old(self).processed_crates@.push(name),
            final(self).processed_paths@ == old(self).processed_paths@.push(source),
            final(self).links@.len() == old(self).links@.len() + 1,
            forall|i: int| 0 <= i < old(self).links@.len() ==> #[trigger] final(self).links@[i] == old(self).links@[i],
            views(final(self).processed_paths@).contains(source@),
            link_added(*old(self), *final(self), name@, source@),
            forall|x: Seq<char>| views(old(self).processed_paths@).contains(x)
                ==> #[trigger] views(final(self).processed_paths@).contains(x),
            *final(self) == (Exporter {
                links: final(self).links,
                processed_crates: final(self).processed_crates,
                processed_paths: final(self).processed_paths,
                workspace_members: final(self).workspace_members,
                ..*old(self)
            }),
    {
        let target = join_path(&self.export_crates_dir, &name);
        let member = slash_join(&self.crates_dir_name, &name);
        let ghost pc = views(self.processed_crates@);
        let ghost pp = views(self.processed_paths@);
        self.links.push(LinkRequest { source: source.clone(), target });
        self.workspace_members.push(member);
        self.processed_paths.push(source);
        self.processed_crates.push(name);
        proof {
            assert(views(self.processed_crates@) =~= pc.push(name@));
            assert(views(self.processed_paths@) =~= pp.push(source@));
            assert forall|i: int, j: int| 0 <= i < pc.len() + 1 && 0 <= j < pc.len() + 1 && i != j
                implies views(self.processed_crates@)[i] != views(self.processed_crates@)[j] by {
                if i < pc.len() && j < pc.len() {
                    assert(pc[i] != pc[j]);
                } else if i == pc.len() {
                    assert(pc.contains(pc[j]));
                } else {
                    assert(pc.contains(pc[i]));
                }
            }
            assert forall|i: int, j: int| 0 <= i < pp.len() + 1 && 0 <= j < pp.len() + 1 && i != j
                implies views(self.processed_paths@)[i] != views(self.processed_paths@)[j] by {
                if i < pp.len() && j < pp.len() {
                    assert(pp[i] != pp[j]);
                } else if i == pp.len() {
                    assert(pp.contains(pp[j]));
                } else {
                    assert(pp.contains(pp[i]));
                }
            }
            assert(member_of(self.crates_dir_name@, name@) == self.crates_dir_name@ + seq!['/'] + name@);
            assert(views(self.processed_paths@)[pp.len() as int] == source@);
            assert forall|x: Seq<char>| pp.contains(x) implies #[trigger] views(self.processed_paths@).contains(x) by {
                let j = choose|j: int| 0 <= j < pp.len() && pp[j] == x;
                assert(views(self.processed_paths@)[j] == x);
            }
        }
    }

    /// Takes one step of the export: handles `event`, the answer to the
    /// previous action, and says what to do next.
    pub fn step(&mut self, event: ExportEvent) -> (r: Result<ExportAction, ExportError>)
        requires
            old(self).wf(),
            event matches ExportEvent::Packages(Some(v)) ==> forall|i: int| 0 <= i < v@.len()
                ==> (#[trigger] v@[i]).dependencies.wf(),
        ensures
            final(self).wf(),
            final(self).extends(*old(self)),
            r == Ok::<ExportAction, ExportError>(ExportAction::Finished) <==> (r is Ok && final(self).phase
                == ExportPhase::Done),
            r matches Ok(ExportAction::Canonicalize(_)) ==> final(self).awaiting is Canonical,
            r matches Ok(ExportAction::LoadPackages(p)) ==> final(self).awaiting is Packages
                && views(final(self).processed_paths@).contains(p@),
            r matches Ok(ExportAction::Continue) ==> final(self).awaiting is Nothing,
            old(self).phase == ExportPhase::Done && event is Proceed ==> r == Ok::<ExportAction, ExportError>(ExportAction::Finished),
            match event {
                ExportEvent::Proceed => old(self).awaiting is Nothing ==> match old(self).phase {
                    ExportPhase::Done => r == Ok::<ExportAction, ExportError>(ExportAction::Finished) && *final(self) == *old(self),
                    ExportPhase::Patches { registry, entry } => patch_advanced(*old(self), registry as int, entry as int, *final(self), r),
                    ExportPhase::Walk => if old(self).stack@.len() == 0 {
                        &&& r == Ok::<ExportAction, ExportError>(ExportAction::Continue)
                        &&& final(self).phase == (ExportPhase::Patches { registry: 0, entry: 0 })
                        &&& no_link_added(*old(self), *final(self))
                    } else {
                        top_advanced(*old(self), *final(self), r)
                    },
                },
                ExportEvent::Canonical(res) => old(self).awaiting is Canonical ==> canonical_handled(*old(self), res, *final(self), r),
                ExportEvent::Packages(res) => old(self).awaiting is Packages ==> packages_handled(*old(self), res, *final(self), r),
            },
            !(match event {
                ExportEvent::Proceed => old(self).awaiting is Nothing,
                ExportEvent::Canonical(_) => old(self).awaiting is Canonical,
                ExportEvent::Packages(_) => old(self).awaiting is Packages,
            }) ==> r == Err::<ExportAction, ExportError>(ExportError::UnexpectedEvent) && *final(self) == *old(self),
    {
        match event {
            ExportEvent::Proceed => {
                if !matches!(self.awaiting, Awaiting::Nothing) {
                    return Err(ExportError::UnexpectedEvent);
                }
                match self.phase {
                    ExportPhase::Done => Ok(ExportAction::Finished),
                    ExportPhase::Patches { registry, entry } => self.advance_patches(registry, entry),
                    ExportPhase::Walk => {
                        if self.stack.len() == 0 {
                            self.phase = ExportPhase::Patches { registry: 0, entry: 0 };
                            Ok(ExportAction::Continue)
                        } else {
                            self.advance_top()
                        }
                    },
                }
            },
            ExportEvent::Canonical(res) => {
                if !matches!(self.awaiting, Awaiting::Canonical { .. }) {
                    return Err(ExportError::UnexpectedEvent);
                }
                self.on_canonical(res)
            },
            ExportEvent::Packages(res) => {
                if !matches!(self.awaiting, Awaiting::Packages) {
                    return Err(ExportError::UnexpectedEvent);
                }
                self.awaiting = Awaiting::Nothing;
                match res {
                    None => Ok(ExportAction::Continue),
                    Some(list) => {
                        self.push_nested(list);
                        Ok(ExportAction::Continue)
                    },
                }
            },
        }
    }

    /// Links the package on top of the stack, reached for the first time.
    fn enter_top(&mut self) -> (r: Result<ExportAction, ExportError>)
        requires
            old(self).wf(),
            old(self).awaiting is Nothing,
            old(self).phase == ExportPhase::Walk,
            old(self).stack@.len() > 0,
            !old(self).stack@.last().entered,
        ensures
            final(self).wf(),
            final(self).extends(*old(self)),
            final(self).phase == ExportPhase::Walk,
            final(self).awaiting is Nothing,
            r == Ok::<ExportAction, ExportError>(ExportAction::Continue),
            top_advanced(*old(self), *final(self), r),
    {
        let mut frame = self.stack.pop().unwrap();
        proof {
            assert(frame == old(self).stack@.last());
            assert forall|i: int| 0 <= i < self.stack@.len() implies #[trigger] self.stack@[i] == old(self).stack@[i] by {}
            assert(self.links_consistent());
        }
        if contains_str(&self.scanned_paths, &frame.package.root_path) {
            return Ok(ExportAction::Continue);
        }
        if !contains_str(&self.processed_paths, &frame.package.root_path) {
            if contains_str(&self.processed_crates, &frame.package.name) {
                let target = join_path(&self.export_crates_dir, &frame.package.name);
                self.conflicts.push(LinkRequest { source: frame.package.root_path.clone(), target });
                return Ok(ExportAction::Continue);
            }
            self.record_link(frame.package.name.clone(), frame.package.root_path.clone());
        }
        let ghost sc = views(self.scanned_paths@);
        self.scanned_paths.push(frame.package.root_path.clone());
        frame.entered = true;
        proof {
            assert(views(self.scanned_paths@) =~= sc.push(frame.package.root_path@));
            assert forall|i: int, j: int| 0 <= i < sc.len() + 1 && 0 <= j < sc.len() + 1 && i != j
                implies views(self.scanned_paths@)[i] != views(self.scanned_paths@)[j] by {
                if i < sc.len() && j < sc.len() {
                    assert(sc[i] != sc[j]);
                } else if i == sc.len() {
                    assert(sc.contains(sc[j]));
                } else {
                    assert(sc.contains(sc[i]));
                }
            }
            assert forall|j: int| 0 <= j < frame.queue@.len() implies views(self.processed_paths@).contains(
                #[trigger] frame.queue@[j].1@) by {
                assert(views(old(self).processed_paths@).contains(frame.queue@[j].1@));
            }
        }
        self.stack.push(frame);
        proof { self.lemma_frames_after_push(*old(self)); }
        return Ok(ExportAction::Continue);
    }

    /// Looks at the next dependency of the package on top of the stack.
    fn scan_dependency(&mut self) -> (r: Result<ExportAction, ExportError>)
        requires
            old(self).wf(),
            old(self).awaiting is Nothing,
            old(self).phase == ExportPhase::Walk,
            old(self).stack@.len() > 0,
            old(self).stack@.last().entered,
            old(self).stack@.last().next_dep < old(self).stack@.last().package.dependencies.entries@.len(),
        ensures
            final(self).wf(),
            final(self).extends(*old(self)),
            final(self).phase == ExportPhase::Walk,
            r matches Ok(a) ==> a is Continue || a is Canonicalize,
            r matches Ok(ExportAction::Canonicalize(_)) ==> final(self).awaiting is Canonical,
            r matches Ok(ExportAction::Continue) ==> final(self).awaiting is Nothing,
            top_advanced(*old(self), *final(self), r),
    {
        let mut frame = self.stack.pop().unwrap();
        proof {
            assert(frame == old(self).stack@.last());
            assert forall|i: int| 0 <= i < self.stack@.len() implies #[trigger] self.stack@[i] == old(self).stack@[i] by {}
        }
        let i = frame.next_dep;
        let count = frame.package.dependencies.len();
        assert(i < count);
        frame.next_dep = i + 1;
        let name = frame.package.dependencies.entries[i].0.clone();
        if contains_str(&self.processed_crates, &name) {
            self.stack.push(frame);
            proof { self.lemma_frames_after_push(*old(self)); }
            return Ok(ExportAction::Continue);
        }
        let dep = &frame.package.dependencies.entries[i].1;
        let local = dep.path.is_some() || dep.workspace() || dep.nexus();
        assert(local == is_local(dep@));
        if !local {
            self.stack.push(frame);
            proof { self.lemma_frames_after_push(*old(self)); }
            return Ok(ExportAction::Continue);
        }
        match self.manager.resolve_dependency(&frame.package.root_path, &name, dep) {
            Err(e) => {
                if frame.nested {
                    self.skipped.push(ExportError::Resolve(e));
                    return Ok(ExportAction::Continue);
                }
                return Err(ExportError::Resolve(e));
            },
            Ok(d) => match &d.path {
                None => {
                    self.stack.push(frame);
                    proof { self.lemma_frames_after_push(*old(self)); }
                    return Ok(ExportAction::Continue);
                },
                Some(p) => {
                    let joined = maybe_join(&frame.package.root_path, p);
                    self.awaiting = Awaiting::Canonical { name };
                    self.stack.push(frame);
                    proof { self.lemma_frames_after_push(*old(self)); }
                    return Ok(ExportAction::Canonicalize(joined));
                },
            },
        }
    }

    /// Works on the package on top of the stack: links it when first
    /// reached, then looks at its next dependency, then visits the packages
    /// of its next linked dependency, then leaves it.
    fn advance_top(&mut self) -> (r: Result<ExportAction, ExportError>)
        requires
            old(self).wf(),
            old(self).awaiting is Nothing,
            old(self).phase == ExportPhase::Walk,
            old(self).stack@.len() > 0,
        ensures
            final(self).wf(),
            final(self).extends(*old(self)),
            final(self).phase == ExportPhase::Walk,
            r != Ok::<ExportAction, ExportError>(ExportAction::Finished),
            r matches Ok(ExportAction::Canonicalize(_)) ==> final(self).awaiting is Canonical,
            r matches Ok(ExportAction::LoadPackages(p)) ==> final(self).awaiting is Packages
                && views(final(self).processed_paths@).contains(p@),
            r matches Ok(ExportAction::Continue) ==> final(self).awaiting is Nothing,
            top_advanced(*old(self), *final(self), r),
    {
        let n = self.stack.len();
        if !self.stack[n - 1].entered {
            return self.enter_top();
        }
        if self.stack[n - 1].next_dep < self.stack[n - 1].package.dependencies.len() {
            return self.scan_dependency();
        }
        let mut frame = self.stack.pop().unwrap();
        proof {
            assert(frame == old(self).stack@.last());
            assert forall|i: int| 0 <= i < self.stack@.len() implies #[trigger] self.stack@[i] == old(self).stack@[i] by {}
        }
        if frame.next_queued < frame.queue.len() {
            let q = frame.next_queued;
            let path = frame.queue[q].1.clone();
            frame.next_queued = q + 1;
            self.stack.push(frame);
            proof { self.lemma_frames_after_push(*old(self)); }
            self.awaiting = Awaiting::Packages;
            return Ok(ExportAction::LoadPackages(path));
        }
        Ok(ExportAction::Continue)
    }

    /// Handles the canonical path of the dependency that the engine waits for.
    fn on_canonical(&mut self, res: Option<String>) -> (r: Result<ExportAction, ExportError>)
        requires
            old(self).wf(),
            old(self).awaiting is Canonical,
        ensures
            final(self).wf(),
            final(self).extends(*old(self)),
            final(self).phase == old(self).phase,
            final(self).awaiting is Nothing,
            r is Ok ==> r == Ok::<ExportAction, ExportError>(ExportAction::Continue),
            canonical_handled(*old(self), res, *final(self), r),
    {
        let name = match &self.awaiting {
            Awaiting::Canonical { name } => name.clone(),
            _ => String::new(),
        };
        self.awaiting = Awaiting::Nothing;
        match self.phase {
            ExportPhase::Walk => {
                let mut frame = self.stack.pop().unwrap();
                proof {
                    assert(frame == old(self).stack@.last());
                    assert(old(self).frame_wf(frame));
                }
                match res {
                    None => {
                        proof { self.lemma_frames_after_pop(*old(self)); }
                        if frame.nested {
                            self.skipped.push(ExportError::Canonicalize { name });
                            return Ok(ExportAction::Continue);
                        }
                        return Err(ExportError::Canonicalize { name });
                    },
                    Some(c) => {
                        if !contains_str(&self.processed_paths, &c) {
                            self.record_link(name.clone(), c.clone());
                            let ghost q = frame.queue@;
                            let ghost cv = c@;
                            frame.queue.push((name, c));
                            proof {
                                assert forall|j: int| 0 <= j < frame.queue@.len() implies views(self.processed_paths@).contains(
                                    #[trigger] frame.queue@[j].1@) by {
                                    if j < q.len() {
                                        assert(frame.queue@[j] == q[j]);
                                        assert(views(old(self).processed_paths@).contains(q[j].1@));
                                    } else {
                                        assert(frame.queue@[j].1@ == cv);
                                    }
                                }
                            }
                        }
                        self.stack.push(frame);
                        proof { self.lemma_frames_after_push(*old(self)); }
                        return Ok(ExportAction::Continue);
                    },
                }
            },
            _ => {
                match res {
                    None => Err(ExportError::Canonicalize { name }),
                    Some(c) => {
                        if !contains_str(&self.processed_paths, &c) {
                            self.record_link(name, c);
                        }
                        Ok(ExportAction::Continue)
                    },
                }
            },
        }
    }

    /// Looks at entry `entry` of override table `registry`: an override with
    /// a relative path, for a package not linked yet, is rewritten to point
    /// into the export, and its directory is linked.
    fn advance_patches(&mut self, registry: usize, entry: usize) -> (r: Result<ExportAction, ExportError>)
        requires
            old(self).wf(),
            old(self).awaiting is Nothing,
            old(self).phase == (ExportPhase::Patches { registry, entry }),
        ensures
            final(self).wf(),
            final(self).extends(*old(self)),
            r == Ok::<ExportAction, ExportError>(ExportAction::Finished) <==> final(self).phase == ExportPhase::Done,
            r matches Ok(ExportAction::Canonicalize(_)) ==> final(self).awaiting is Canonical,
            r matches Ok(ExportAction::LoadPackages(_)) ==> false,
            r matches Ok(ExportAction::Continue) ==> final(self).awaiting is Nothing,
            patch_advanced(*old(self), registry as int, entry as int, *final(self), r),
    {
        if registry >= self.patch_source.registries.len() {
            self.phase = ExportPhase::Done;
            return Ok(ExportAction::Finished);
        }
        let n = self.patch_source.registries[registry].1.len();
        if entry >= n {
            self.phase = ExportPhase::Patches { registry: registry + 1, entry: 0 };
            return Ok(ExportAction::Continue);
        }
        self.phase = ExportPhase::Patches { registry, entry: entry + 1 };
        let name = self.patch_source.registries[registry].1.entries[entry].0.clone();
        if contains_str(&self.processed_crates, &name) {
            return Ok(ExportAction::Continue);
        }
        let cfg = self.patch_source.registries[registry].1.entries[entry].1.duplicate();
        let relative = match &cfg.path {
            None => false,
            Some(p) => !is_absolute(p),
        };
        if !relative {
            return Ok(ExportAction::Continue);
        }
        let resolved = self.manager.resolve_dependency(&self.root_path, &name, &cfg);
        match resolved {
            Err(e) => {
                return Err(ExportError::Resolve(e));
            },
            Ok(d) => {
                let inside = slash_join(&self.crates_dir_name, &name);
                self.patch.insert_at(registry, name.clone(), cfg.with_path(inside));
                match d.path {
                    None => Ok(ExportAction::Continue),
                    Some(p) => {
                        let joined = maybe_join(&self.root_path, &p);
                        self.awaiting = Awaiting::Canonical { name };
                        Ok(ExportAction::Canonicalize(joined))
                    },
                }
            },
        }
    }

    /// Pushing back the top frame, changed only in its cursors and queue,
    /// keeps the frames well formed.
    proof fn lemma_frames_after_push(&self, o: Exporter)
        requires
            o.frames_wf(),
            self.stack@.len() == o.stack@.len(),
            self.stack@.len() > 0,
            forall|i: int| 0 <= i < self.stack@.len() - 1 ==> #[trigger] self.stack@[i] == o.stack@[i],
            self.frame_wf(self.stack@.last()),
            forall|x: Seq<char>| views(o.processed_paths@).contains(x) ==> #[trigger] views(self.processed_paths@).contains(x),
        ensures
            self.frames_wf(),
    {
        assert forall|i: int| 0 <= i < self.stack@.len() implies self.frame_wf(#[trigger] self.stack@[i]) by {
            if i < self.stack@.len() - 1 {
                assert(self.stack@[i] == o.stack@[i]);
                assert(o.frame_wf(o.stack@[i]));
            }
        }
    }

    /// Without its top frame, the stack stays well formed.
    proof fn lemma_frames_after_pop(&self, o: Exporter)
        requires
            o.frames_wf(),
            o.stack@.len() > 0,
            self.stack@ == o.stack@.drop_last(),
            forall|x: Seq<char>| views(o.processed_paths@).contains(x) ==> #[trigger] views(self.processed_paths@).contains(x),
        ensures
            self.frames_wf(),
    {
        assert forall|i: int| 0 <= i < self.stack@.len() implies self.frame_wf(#[trigger] self.stack@[i]) by {
            assert(self.stack@[i] == o.stack@[i]);
            assert(o.frame_wf(o.stack@[i]));
        }
    }

    /// Puts `list` on the stack so that its first package is visited first.
    fn push_nested(&mut self, list: Vec<PackageModel>)
        requires
            old(self).wf(),
            old(self).awaiting is Nothing,
            old(self).phase == ExportPhase::Walk,
            forall|i: int| 0 <= i < list@.len() ==> (#[trigger] list@[i]).dependencies.wf(),
        ensures
            final(self).wf(),
            final(self).awaiting is Nothing,
            final(self).phase == ExportPhase::Walk,
            *final(self) == (Exporter { stack: final(self).stack, ..*old(self) }),
            final(self).stack@.len() == old(self).stack@.len() + list@.len(),
            forall|i: int| 0 <= i < old(self).stack@.len() ==> #[trigger] final(self).stack@[i] == old(self).stack@[i],
            forall|i: int| 0 <= i < list@.len() ==> {
                &&& (#[trigger] final(self).stack@[old(self).stack@.len() + i]).package == list@[list@.len() - 1 - i]
                &&& !final(self).stack@[old(self).stack@.len() + i].entered
                &&& final(self).stack@[old(self).stack@.len() + i].nested
                &&& final(self).stack@[old(self).stack@.len() + i].next_dep == 0
                &&& final(self).stack@[old(self).stack@.len() + i].queue@.len() == 0
            },
    {
        let ghost orig = list@;
        let ghost base = old(self).stack@.len();
        let mut list = list;
        while list.len() > 0
            invariant
                self.wf(),
                self.awaiting is Nothing,
                self.phase == ExportPhase::Walk,
                *self == (Exporter { stack: self.stack, ..*old(self) }),
                list@.len() <= orig.len(),
                list@ == orig.subrange(0, list@.len() as int),
                self.stack@.len() == base + (orig.len() - list@.len()),
                forall|i: int| 0 <= i < base ==> #[trigger] self.stack@[i] == old(self).stack@[i],
                forall|i: int| 0 <= i < orig.len() - list@.len() ==> {
                    &&& (#[trigger] self.stack@[base + i]).package == orig[orig.len() - 1 - i]
                    &&& !self.stack@[base + i].entered
                    &&& self.stack@[base + i].nested
                    &&& self.stack@[base + i].next_dep == 0
                    &&& self.stack@[base + i].queue@.len() == 0
                },
                forall|i: int| 0 <= i < list@.len() ==> (#[trigger] list@[i]).dependencies.wf(),
            decreases list@.len(),
        {
            let ghost before = list@;
            let p = list.pop().unwrap();
            assert(p == orig[list@.len() as int]);
            assert(list@ =~= orig.subrange(0, list@.len() as int));
            self.stack.push(PackageFrame {
                package: p,
                entered: false,
                next_dep: 0,
                queue: Vec::new(),
                next_queued: 0,
                nested: true,
            });
            proof {
                let pre = self.stack@.drop_last();
                assert forall|i: int| 0 <= i < self.stack@.len() implies self.frame_wf(#[trigger] self.stack@[i]) by {
                    if i < self.stack@.len() - 1 {
                        assert(self.stack@[i] == pre[i]);
                    }
                }
                assert forall|i: int| 0 <= i < base implies #[trigger] self.stack@[i] == old(self).stack@[i] by {
                    assert(self.stack@[i] == pre[i]);
                }
                let k = orig.len() - list@.len();
                assert forall|i: int| 0 <= i < k implies {
                    &&& (#[trigger] self.stack@[base + i]).package == orig[orig.len() - 1 - i]
                    &&& !self.stack@[base + i].entered
                    &&& self.stack@[base + i].nested
                    &&& self.stack@[base + i].next_dep == 0
                    &&& self.stack@[base + i].queue@.len() == 0
                } by {
                    if i < k - 1 {
                        assert(self.stack@[base + i] == pre[base + i]);
                    }
                }
            }
        }
        assert(list@.len() == 0);
    }
}

/// The dependency table of the exported workspace: `t`, with every
/// exported package `names` declared, each at its directory in `dir`.
pub open spec fn exported_dependencies(
    t: Map<Seq<char>, DependencyView>,
    names: Seq<Seq<char>>,
    dir: Seq<char>,
) -> Map<Seq<char>, DependencyView> {
    Map::new(
        |k: Seq<char>| t.contains_key(k) || names.contains(k),
        |k: Seq<char>| if names.contains(k) {
            DependencyView {
                path: Some(seq!['.', '/'] + member_of(dir, k)),
                ..if t.contains_key(k) { t[k] } else { DependencyModel::empty_view() }
            }
        } else {
            t[k]
        },
    )
}

/// What an export produces: the links to create and the workspace that
/// ties the linked packages together.
#[derive(Debug, Clone)]
pub struct ExportPlan {
    pub links: Vec<LinkRequest>,
    pub workspace: WorkspaceModel,
}

/// No two links of an engine share a source directory or a package name,
/// and no directory has its dependencies followed twice: a package reached
/// through several chains of dependencies is linked once and its
/// dependencies are resolved once.
pub proof fn lemma_linked_once(ex: Exporter)
    requires
        ex.wf(),
    ensures
        forall|i: int, j: int| #![trigger ex.scanned_paths@[i], ex.scanned_paths@[j]]
            0 <= i < ex.scanned_paths@.len() && 0 <= j < ex.scanned_paths@.len() && i != j
            ==> ex.scanned_paths@[i]@ != ex.scanned_paths@[j]@,
        forall|i: int, j: int| #![trigger ex.links@[i], ex.links@[j]]
            0 <= i < ex.links@.len() && 0 <= j < ex.links@.len() && i != j
            ==> ex.links@[i].source@ != ex.links@[j].source@,
        forall|i: int, j: int| #![trigger ex.processed_crates@[i], ex.processed_crates@[j]]
            0 <= i < ex.links@.len() && 0 <= j < ex.links@.len() && i != j
            ==> ex.processed_crates@[i]@ != ex.processed_crates@[j]@,
{
    assert forall|i: int, j: int| #![trigger ex.scanned_paths@[i], ex.scanned_paths@[j]]
        0 <= i < ex.scanned_paths@.len() && 0 <= j < ex.scanned_paths@.len() && i != j
        implies ex.scanned_paths@[i]@ != ex.scanned_paths@[j]@ by {
        assert(views(ex.scanned_paths@)[i] != views(ex.scanned_paths@)[j]);
    }
    assert forall|i: int, j: int| #![trigger ex.links@[i], ex.links@[j]]
        0 <= i < ex.links@.len() && 0 <= j < ex.links@.len() && i != j
        implies ex.links@[i].source@ != ex.links@[j].source@ by {
        assert(views(ex.processed_paths@)[i] != views(ex.processed_paths@)[j]);
    }
    assert forall|i: int, j: int| #![trigger ex.processed_crates@[i], ex.processed_crates@[j]]
        0 <= i < ex.links@.len() && 0 <= j < ex.links@.len() && i != j
        implies ex.processed_crates@[i]@ != ex.processed_crates@[j]@ by {
        assert(views(ex.processed_crates@)[i] != views(ex.processed_crates@)[j]);
    }
}

impl Exporter {
    /// Declares every exported package in `deps`, each at its directory in
    /// the export.
    pub fn update_workspace_dependencies(&self, deps: &mut DependencyTable)
        requires
            old(deps).wf(),
        ensures
            final(deps).wf(),
            final(deps)@ == exported_dependencies(old(deps)@, views(self.processed_crates@), self.crates_dir_name@),
    {
        let ghost t = old(deps)@;
        let ghost names = views(self.processed_crates@);
        let mut i: usize = 0;
        while i < self.processed_crates.len()
            invariant
                deps.wf(),
                i <= names.len(),
                names == views(self.processed_crates@),
                deps@ == exported_dependencies(t, names.subrange(0, i as int), self.crates_dir_name@),
            decreases names.len() - i,
        {
            let name = &self.processed_crates[i];
            let member = slash_join(&self.crates_dir_name, name);
            proof {
                reveal_strlit("./");
            }
            let dot = "./".to_string();
            let path = dot.concat(member.as_str());
            let ghost pv = seq!['.', '/'] + member_of(self.crates_dir_name@, name@);
            assert(member_of(self.crates_dir_name@, name@) == self.crates_dir_name@ + seq!['/'] + name@);
            assert(path@ =~= pv);
            let d = match deps.get(name) {
                Some(old_dep) => old_dep.with_path(path),
                None => DependencyModel::from_path(path),
            };
            let ghost before = deps@;
            deps.insert(name.clone(), d);
            proof {
                let pre = names.subrange(0, i as int);
                let post = names.subrange(0, i + 1);
                assert(post =~= pre.push(name@));
                assert forall|k: Seq<char>| post.contains(k) == (pre.contains(k) || k == name@) by {
                    if post.contains(k) {
                        let j = choose|j: int| 0 <= j < post.len() && post[j] == k;
                        if j < pre.len() {
                            assert(pre[j] == k);
                        }
                    }
                    if pre.contains(k) {
                        let j = choose|j: int| 0 <= j < pre.len() && pre[j] == k;
                        assert(post[j] == k);
                    }
                    if k == name@ {
                        assert(post[i as int] == k);
                    }
                }
                let e = exported_dependencies(t, post, self.crates_dir_name@);
                assert(e[name@] == DependencyView { path: Some(pv), ..if t.contains_key(name@) { t[name@] } else { DependencyModel::empty_view() } });
                assert(deps@[name@] == d@);
                assert(d@ == e[name@]);
                assert(deps@ =~= e);
            }
            i = i + 1;
        }
        proof {
            assert(names.subrange(0, names.len() as int) =~= names);
        }
    }

    /// The workspace that ties the exported packages together: named after
    /// the manifest exported, its members the linked packages in
    /// lexicographic order, its
    /// dependencies those of the exported workspace with every linked
    /// package declared at its directory, and its overrides rewritten to
    /// point into the export.
    pub fn create_export_workspace(&self) -> (r: WorkspaceModel)
        requires
            self.wf(),
            self.manifest.wf(),
        ensures
            r.wf(),
            r.name@ == match self.manifest {
                ManifestModel::Nexus(n) => n.name@,
                ManifestModel::Workspace(w) => w.name@,
                ManifestModel::Package(p) => p.name@,
            },
            views(r.members@).to_multiset() == views(self.workspace_members@).to_multiset(),
            sorted_text(r.members@),
            sorted_text(self.workspace_members@) ==> views(r.members@) == views(self.workspace_members@),
            r.exclude@.len() == 0,
            r.source_path@ == path_joined(self.export_dir@, CARGO_MANIFEST@),
            r.resolver == match self.manifest {
                ManifestModel::Workspace(w) => w.resolver,
                _ => Some(r.resolver->Some_0),
            },
            self.manifest is Workspace || r.resolver->Some_0@ == "2"@,
            r.description == match self.manifest {
                ManifestModel::Nexus(n) => n.description,
                ManifestModel::Workspace(w) => w.description,
                ManifestModel::Package(p) => Some(p.description),
            },
            r.patch.same_as(self.patch),
            r.dependencies@ == exported_dependencies(
                match self.manifest {
                    ManifestModel::Workspace(w) => w.dependencies@,
                    _ => Map::empty(),
                },
                views(self.processed_crates@),
                self.crates_dir_name@,
            ),
            r.root_path == self.export_dir,
            r.patch.registries@.len() == self.patch.registries@.len(),
    {
        proof {
            reveal_strlit("2");
        }
        let (name, description, resolver) = match &self.manifest {
            ManifestModel::Workspace(w) => (w.name.clone(), copy_opt(&w.description), copy_opt(&w.resolver)),
            ManifestModel::Package(p) => (p.name.clone(), Some(p.description.clone()), Some("2".to_string())),
            ManifestModel::Nexus(n) => (n.name.clone(), copy_opt(&n.description), Some("2".to_string())),
        };
        let mut dependencies = match &self.manifest {
            ManifestModel::Workspace(w) => w.dependencies.duplicate(),
            _ => DependencyTable::new(),
        };
        self.update_workspace_dependencies(&mut dependencies);
        let mut members = copy_strings(&self.workspace_members);
        sort_text(&mut members);
        proof {
            if sorted_text(self.workspace_members@) {
                lemma_sorted_permutation_unique(views(members@), views(self.workspace_members@));
            }
        }
        let source_path = join_path(&self.export_dir, &CARGO_MANIFEST.to_string());
        WorkspaceModel {
            name,
            description,
            members,
            exclude: Vec::new(),
            resolver,
            custom: Vec::new(),
            dependencies,
            patch: self.patch.duplicate(),
            root_path: self.export_dir.clone(),
            source_path,
        }
    }
}

/// `plan` is what [`export`] gives for `engine`.
pub open spec fn planned(engine: Exporter, plan: ExportPlan) -> bool {
    &&& plan.links@ == engine.links@
    &&& views(plan.workspace.members@).to_multiset() == views(engine.workspace_members@).to_multiset()
    &&& sorted_text(plan.workspace.members@)
    &&& plan.workspace.name@ == match engine.manifest {
        ManifestModel::Nexus(n) => n.name@,
        ManifestModel::Workspace(w) => w.name@,
        ManifestModel::Package(p) => p.name@,
    }
    &&& plan.workspace.root_path == engine.export_dir
    &&& plan.workspace.source_path@ == path_joined(engine.export_dir@, CARGO_MANIFEST@)
    &&& plan.workspace.dependencies@ == exported_dependencies(
        match engine.manifest {
            ManifestModel::Workspace(w) => w.dependencies@,
            _ => Map::empty(),
        },
        views(engine.processed_crates@),
        engine.crates_dir_name@,
    )
}

/// Two exports that record the same links, packages and members, whatever
/// order they reached them in, give the same links and the same workspace:
/// the same members in the same order, and the same dependency table.
pub proof fn lemma_same_record_same_plan(a: Exporter, pa: ExportPlan, b: Exporter, pb: ExportPlan)
    requires
        planned(a, pa),
        planned(b, pb),
        a.links@ == b.links@,
        views(a.workspace_members@).to_multiset() == views(b.workspace_members@).to_multiset(),
        views(a.processed_crates@).to_set() == views(b.processed_crates@).to_set(),
        a.crates_dir_name@ == b.crates_dir_name@,
        a.manifest == b.manifest,
        a.export_dir == b.export_dir,
    ensures
        pa.links@ == pb.links@,
        views(pa.workspace.members@) == views(pb.workspace.members@),
        pa.workspace.dependencies@ == pb.workspace.dependencies@,
        pa.workspace.name@ == pb.workspace.name@,
        pa.workspace.root_path == pb.workspace.root_path,
        pa.workspace.source_path@ == pb.workspace.source_path@,
{
    lemma_sorted_permutation_unique(views(pa.workspace.members@), views(pb.workspace.members@));
    let t = match a.manifest {
        ManifestModel::Workspace(w) => w.dependencies@,
        _ => Map::empty(),
    };
    let na = views(a.processed_crates@);
    let nb = views(b.processed_crates@);
    assert forall|k: Seq<char>| na.contains(k) == nb.contains(k) by {
        assert(na.to_set().contains(k) == na.contains(k));
        assert(nb.to_set().contains(k) == nb.contains(k));
    }
    assert(exported_dependencies(t, na, a.crates_dir_name@) =~= exported_dependencies(t, nb, b.crates_dir_name@));
}

/// Every linked package is declared in the exported workspace's table, at
/// its directory inside the export.
pub proof fn lemma_linked_packages_declared(t: Map<Seq<char>, DependencyView>, names: Seq<Seq<char>>, dir: Seq<char>)
    ensures
        forall|k: Seq<char>| #[trigger] names.contains(k) ==> exported_dependencies(t, names, dir).contains_key(k)
            && exported_dependencies(t, names, dir)[k].path == Some(seq!['.', '/'] + member_of(dir, k)),
{
}

/// The outcome of a finished export: the links to create and the
/// workspace to write at the export's root.
pub fn export(engine: &Exporter) -> (r: ExportPlan)
    requires
        engine.wf(),
        engine.manifest.wf(),
    ensures
        planned(*engine, r),
        r.links@ == engine.links@,
        r.workspace.wf(),
        views(r.workspace.members@).to_multiset() == views(engine.workspace_members@).to_multiset(),
        sorted_text(engine.workspace_members@) ==> views(r.workspace.members@) == views(engine.workspace_members@),
        r.workspace.name@ == match engine.manifest {
            ManifestModel::Nexus(n) => n.name@,
            ManifestModel::Workspace(w) => w.name@,
            ManifestModel::Package(p) => p.name@,
        },
        r.workspace.root_path == engine.export_dir,
        r.workspace.source_path@ == path_joined(engine.export_dir@, CARGO_MANIFEST@),
        sorted_text(r.workspace.members@),
        r.workspace.dependencies@ == exported_dependencies(
            match engine.manifest {
                ManifestModel::Workspace(w) => w.dependencies@,
                _ => Map::empty(),
            },
            views(engine.processed_crates@),
            engine.crates_dir_name@,
        ),
{
    let mut links: Vec<LinkRequest> = Vec::new();
    let mut i: usize = 0;
    while i < engine.links.len()
        invariant
            i <= engine.links@.len(),
            links@ == engine.links@.subrange(0, i as int),
        decreases engine.links@.len() - i,
    {
        let l = &engine.links[i];
        links.push(LinkRequest { source: l.source.clone(), target: l.target.clone() });
        proof {
            assert(links@.last() == engine.links@[i as int]);
            assert(links@ =~= engine.links@.subrange(0, i + 1));
        }
        i = i + 1;
    }
    assert(links@ =~= engine.links@);
    ExportPlan { links, workspace: engine.create_export_workspace() }
}

/// A copy of package `p` with the same name, directory and dependencies.
fn copy_package(p: &PackageModel) -> (r: PackageModel)
    requires
        p.dependencies.wf(),
    ensures
        r.dependencies.wf(),
        r.dependencies@ == p.dependencies@,
        r.name == p.name,
        r.root_path == p.root_path,
{
    PackageModel {
        name: p.name.clone(),
        version: p.version.clone(),
        edition: p.edition.clone(),
        description: p.description.clone(),
        authors: crate::text::copy_strings(&p.authors),
        homepage: crate::text::copy_opt(&p.homepage),
        repository: crate::text::copy_opt(&p.repository),
        documentation: crate::text::copy_opt(&p.documentation),
        license: crate::text::copy_opt(&p.license),
        custom: crate::text::copy_pairs(&p.custom),
        dependencies: p.dependencies.duplicate(),
        patch: PatchMap::new(),
        root_path: p.root_path.clone(),
        source_path: p.source_path.clone(),
    }
}

} // verus!
