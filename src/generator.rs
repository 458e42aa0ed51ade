//! Writing models back out as manifest documents of the build tool.

use vstd::prelude::*;
use crate::dependency::DependencyView;
use crate::config::{config_map_view, table_to_config_map, ManifestConfig, PackageConfig, WorkspaceConfig};
use crate::loader::package_read_from;
use crate::manager::{resolved_table, table_fails_with, table_resolves, ManifestManager, ResolveError};
use crate::models::{PackageModel, WorkspaceModel};
use crate::paths::{join_path, path_joined};
use crate::text::{copy_opt, copy_pairs, copy_strings};

verus! {

/// Options of a generation.
#[derive(Debug, Clone)]
pub struct GenerateOptions {
    /// The workspace directory.
    pub config_path: String,
    /// Empty the directories first, keeping sources and manifests.
    pub clean: bool,
    /// Copy the lock file, if there is one.
    pub copy_lock: bool,
    /// Link or copy the build tool's configuration directory, if there is one.
    pub include_cargo_dir: bool,
    /// Link that directory rather than copy it.
    pub symlink_cargo_dir: bool,
}

impl Default for GenerateOptions {
    fn default() -> (r: GenerateOptions)
        ensures
            r.config_path@ == seq!['.'],
            !r.clean,
            r.copy_lock && r.include_cargo_dir && r.symlink_cargo_dir,
    {
        proof {
            reveal_strlit(".");
        }
        GenerateOptions {
            config_path: ".".to_string(),
            clean: false,
            copy_lock: true,
            include_cargo_dir: true,
            symlink_cargo_dir: true,
        }
    }
}

/// `config` is the document written for workspace `w`.
pub open spec fn workspace_written_as(w: WorkspaceModel, config: ManifestConfig) -> bool {
    &&& config.nexus is None && config.package is None
    &&& config.workspace matches Some(c) && {
        &&& c.members@ == w.members@ && c.exclude@ == w.exclude@
        &&& c.resolver == w.resolver
        &&& c.custom@ == w.custom@
        &&& config_map_view(c.dependencies@) == w.dependencies@
    }
    &&& config.dependencies@.len() == 0
    &&& config.patch.same_as(w.patch)
    &&& config.patch.wf()
}

/// `config` is the document written for package `p`, its dependency table
/// written as `deps`.
pub open spec fn package_written_with(p: PackageModel, deps: Map<Seq<char>, DependencyView>, config: ManifestConfig) -> bool {
    &&& config.nexus is None && config.workspace is None
    &&& config.package matches Some(c) && {
        &&& c.name == p.name && c.version == p.version && c.description == p.description
        &&& c.edition == Some(p.edition)
        &&& c.authors@ == p.authors@
        &&& c.homepage == p.homepage && c.repository == p.repository
        &&& c.documentation == p.documentation && c.license == p.license
        &&& c.custom@ == p.custom@
    }
    &&& config_map_view(config.dependencies@) == deps
    &&& config.patch.same_as(p.patch)
    &&& config.patch.wf()
}

/// `config` is the document written for package `p`.
pub open spec fn package_written_as(p: PackageModel, config: ManifestConfig) -> bool {
    package_written_with(p, p.dependencies@, config)
}

/// Reading back the document written for a package gives the package again,
/// field for field, unknown keys included.
pub proof fn lemma_package_round_trip(p: PackageModel, config: ManifestConfig, q: PackageModel)
    requires
        package_written_as(p, config),
        package_read_from(q, config, p.root_path, p.source_path),
    ensures
        q.name == p.name && q.version == p.version && q.description == p.description,
        q.edition@ == p.edition@,
        q.authors@ == p.authors@,
        q.homepage == p.homepage && q.repository == p.repository,
        q.documentation == p.documentation && q.license == p.license,
        q.custom@ == p.custom@,
        q.dependencies@ == p.dependencies@,
        q.patch.same_as(p.patch),
        q.root_path == p.root_path && q.source_path == p.source_path,
{
}

/// The document for workspace `w`.
pub fn workspace_manifest(w: &WorkspaceModel) -> (r: ManifestConfig)
    requires
        w.wf(),
    ensures
        workspace_written_as(*w, r),
{
    let mut m = ManifestConfig::new();
    m.workspace = Some(WorkspaceConfig {
        members: copy_strings(&w.members),
        exclude: copy_strings(&w.exclude),
        resolver: copy_opt(&w.resolver),
        dependencies: table_to_config_map(&w.dependencies),
        custom: copy_pairs(&w.custom),
    });
    m.patch = w.patch.duplicate();
    m
}

/// The document for package `p`.
pub fn package_manifest(p: &PackageModel) -> (r: ManifestConfig)
    requires
        p.wf(),
    ensures
        package_written_as(*p, r),
{
    let mut m = ManifestConfig::new();
    m.package = Some(PackageConfig {
        name: p.name.clone(),
        version: p.version.clone(),
        description: p.description.clone(),
        edition: Some(p.edition.clone()),
        authors: copy_strings(&p.authors),
        homepage: copy_opt(&p.homepage),
        repository: copy_opt(&p.repository),
        documentation: copy_opt(&p.documentation),
        license: copy_opt(&p.license),
        custom: copy_pairs(&p.custom),
    });
    m.dependencies = table_to_config_map(&p.dependencies);
    m.patch = p.patch.duplicate();
    m
}

/// A generated document and the file to write it to.
#[derive(Debug, Clone)]
pub struct GeneratedManifest {
    pub path: String,
    pub config: ManifestConfig,
}

/// Writes the build tool's manifests for a workspace and its packages.
#[derive(Debug, Clone)]
pub struct CargoGenerator {
    pub nexus_manager: ManifestManager,
}

impl CargoGenerator {
    pub fn new(nexus_manager: ManifestManager) -> (r: CargoGenerator)
        ensures
            r.nexus_manager == nexus_manager,
    {
        CargoGenerator { nexus_manager }
    }

    /// The document for package `model`, after resolving its dependencies
    /// against the nexus as it is now.
    pub fn generate_package_manifest(&self, model: &mut PackageModel) -> (r: Result<ManifestConfig, ResolveError>)
        requires
            self.nexus_manager.wf(),
            old(model).wf(),
        ensures
            match r {
                Ok(c) => {
                    &&& table_resolves(self.nexus_manager.packages@, self.nexus_manager.workspaces@, old(model).root_path@, old(model).dependencies@)
                    &&& final(model).dependencies@ == resolved_table(self.nexus_manager.packages@, self.nexus_manager.workspaces@, old(model).root_path@, old(model).dependencies@)
                    &&& *final(model) == (PackageModel { dependencies: final(model).dependencies, ..*old(model) })
                    &&& package_written_as(*final(model), c)
                },
                Err(e) => table_fails_with(self.nexus_manager.packages@, self.nexus_manager.workspaces@, old(model).root_path@, old(model).dependencies@, e@),
            },
    {
        self.nexus_manager.resolve_package_dependencies(model)?;
        Ok(package_manifest(model))
    }

    /// The documents for workspace `workspace`, at its root, and for each of
    /// `packages`, its members, each at its own root and with its
    /// dependencies resolved, in order.
    pub fn generate_all(&self, workspace: &WorkspaceModel, packages: &Vec<PackageModel>) -> (r: Result<Vec<GeneratedManifest>, ResolveError>)
        requires
            self.nexus_manager.wf(),
            workspace.wf(),
            forall|i: int| 0 <= i < packages@.len() ==> (#[trigger] packages@[i]).wf(),
        ensures
            match r {
                Ok(v) => {
                    &&& v@.len() == packages@.len() + 1
                    &&& v@[0].path@ == path_joined(workspace.root_path@, CARGO_MANIFEST@)
                    &&& workspace_written_as(*workspace, v@[0].config)
                    &&& forall|i: int| 0 <= i < packages@.len() ==> self.package_generated(#[trigger] packages@[i], v@[i + 1])
                },
                Err(e) => exists|i: int| 0 <= i < packages@.len() && table_fails_with(self.nexus_manager.packages@,
                    self.nexus_manager.workspaces@, (#[trigger] packages@[i]).root_path@, packages@[i].dependencies@, e@),
            },
    {
        let mut out: Vec<GeneratedManifest> = Vec::new();
        out.push(GeneratedManifest {
            path: join_path(&workspace.root_path, &CARGO_MANIFEST.to_string()),
            config: workspace_manifest(workspace),
        });
        let mut i: usize = 0;
        while i < packages.len()
            invariant
                self.nexus_manager.wf(),
                forall|j: int| 0 <= j < packages@.len() ==> (#[trigger] packages@[j]).wf(),
                i <= packages@.len(),
                out@.len() == i + 1,
                out@[0].path@ == path_joined(workspace.root_path@, CARGO_MANIFEST@),
                workspace_written_as(*workspace, out@[0].config),
                forall|j: int| 0 <= j < i ==> self.package_generated(#[trigger] packages@[j], out@[j + 1]),
            decreases packages@.len() - i,
        {
            let mut p = packages[i].duplicate();
            let path = join_path(&p.root_path, &CARGO_MANIFEST.to_string());
            match self.generate_package_manifest(&mut p) {
                Ok(config) => {
                    let ghost before = out@;
                    out.push(GeneratedManifest { path, config });
                    proof {
                        assert forall|j: int| 0 <= j < i + 1 implies self.package_generated(#[trigger] packages@[j], out@[j + 1]) by {
                            if j < i {
                                assert(out@[j + 1] == before[j + 1]);
                            }
                        }
                    }
                },
                Err(e) => {
                    return Err(e);
                },
            }
            i = i + 1;
        }
        Ok(out)
    }

    /// `g` is the document generated for package `p`: its dependencies
    /// resolve, and it is written with them resolved, at the package's root.
    pub open spec fn package_generated(&self, p: PackageModel, g: GeneratedManifest) -> bool {
        let m = self.nexus_manager;
        &&& g.path@ == path_joined(p.root_path@, CARGO_MANIFEST@)
        &&& table_resolves(m.packages@, m.workspaces@, p.root_path@, p.dependencies@)
        &&& package_written_with(p, resolved_table(m.packages@, m.workspaces@, p.root_path@, p.dependencies@), g.config)
    }
}

/// The documents to write for `workspace` and its member `packages`, with
/// every package's dependencies resolved against the nexus of `manager`.
pub fn generate(manager: ManifestManager, workspace: &WorkspaceModel, packages: &Vec<PackageModel>) -> (r: Result<Vec<GeneratedManifest>, ResolveError>)
    requires
        manager.wf(),
        workspace.wf(),
        forall|i: int| 0 <= i < packages@.len() ==> (#[trigger] packages@[i]).wf(),
    ensures
        match r {
            Ok(v) => {
                &&& v@.len() == packages@.len() + 1
                &&& workspace_written_as(*workspace, v@[0].config)
                &&& forall|i: int| 0 <= i < packages@.len() ==> (CargoGenerator { nexus_manager: manager }).package_generated(#[trigger] packages@[i], v@[i + 1])
            },
            Err(e) => exists|i: int| 0 <= i < packages@.len() && table_fails_with(manager.packages@,
                manager.workspaces@, (#[trigger] packages@[i]).root_path@, packages@[i].dependencies@, e@),
        },
{
    let generator = CargoGenerator::new(manager);
    generator.generate_all(workspace, packages)
}

/// The file name of the build tool's manifest.
pub const CARGO_MANIFEST: &'static str = "Cargo.toml";

} // verus!
