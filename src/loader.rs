//! Turning manifest documents into models.
//!
//! Reading a document from a directory is the caller's part; given the
//! document, its directory and the directory's name, these functions build
//! the model of the tier the document declares.

use vstd::prelude::*;
use crate::config::{config_map_to_table, config_map_view, LoadError, MagnetConfigType, ManifestConfig};
use crate::models::{ManifestModel, NexusModel, PackageModel, WorkspaceModel};
use crate::paths::{file_name, path_file_name};
use crate::text::{copy_opt, copy_pairs, copy_strings};

verus! {

/// The edition a package has where its manifest names none.
pub const DEFAULT_EDITION: &'static str = "2024";

/// `p` is the package that `config` declares, read from `source_path` in
/// directory `root_path`.
pub open spec fn package_read_from(p: PackageModel, config: ManifestConfig, root_path: String, source_path: String) -> bool {
    config.package matches Some(c) && {
        &&& p.wf()
        &&& p.name == c.name
        &&& p.version == c.version
        &&& p.description == c.description
        &&& p.edition@ == match c.edition {
            Some(e) => e@,
            None => DEFAULT_EDITION@,
        }
        &&& p.authors@ == c.authors@
        &&& p.homepage == c.homepage && p.repository == c.repository
        &&& p.documentation == c.documentation && p.license == c.license
        &&& p.custom@ == c.custom@
        &&& p.dependencies@ == config_map_view(config.dependencies@)
        &&& p.patch.same_as(config.patch)
        &&& p.root_path == root_path && p.source_path == source_path
    }
}

impl PackageModel {
    /// The package that `config` declares, found in directory `root_path`
    /// and read from `source_path`.
    pub fn from_config(config: &ManifestConfig, root_path: String, source_path: String) -> (r: Result<PackageModel, LoadError>)
        requires
            config.patch.wf(),
        ensures
            match r {
                Ok(p) => package_read_from(p, *config, root_path, source_path),
                Err(e) => config.package is None && e == LoadError::MissingSection(MagnetConfigType::Package),
            },
    {
        match &config.package {
            None => Err(LoadError::MissingSection(MagnetConfigType::Package)),
            Some(c) => {
                let edition = match &c.edition {
                    Some(e) => e.clone(),
                    None => DEFAULT_EDITION.to_string(),
                };
                let custom = copy_pairs(&c.custom);
                assert(custom@ == c.custom@);
                Ok(PackageModel {
                    name: c.name.clone(),
                    version: c.version.clone(),
                    edition,
                    description: c.description.clone(),
                    authors: copy_strings(&c.authors),
                    homepage: copy_opt(&c.homepage),
                    repository: copy_opt(&c.repository),
                    documentation: copy_opt(&c.documentation),
                    license: copy_opt(&c.license),
                    custom,
                    dependencies: config_map_to_table(&config.dependencies),
                    patch: config.patch.duplicate(),
                    root_path,
                    source_path,
                })
            },
        }
    }
}

/// The name of directory `root`: its last component, or the whole path
/// where it has none.
pub open spec fn dir_name_of(root: Seq<char>) -> Seq<char> {
    match path_file_name(root) {
        Some(n) => n,
        None => root,
    }
}

/// The name of directory `root`.
fn dir_name(root: &String) -> (r: String)
    ensures
        r@ == dir_name_of(root@),
{
    match file_name(root.as_str()) {
        Some(n) => n,
        None => root.clone(),
    }
}

/// `w` is the workspace that `config` declares, read from `source_path` in
/// directory `root_path`, and named after that directory.
pub open spec fn workspace_read_from(w: WorkspaceModel, config: ManifestConfig, root_path: String, source_path: String) -> bool {
    config.workspace matches Some(c) && {
        &&& w.wf()
        &&& w.name@ == dir_name_of(root_path@)
        &&& w.description is None
        &&& w.members@ == c.members@ && w.exclude@ == c.exclude@
        &&& w.resolver == c.resolver
        &&& w.custom@ == c.custom@
        &&& w.dependencies@ == config_map_view(c.dependencies@)
        &&& w.patch.same_as(config.patch)
        &&& w.root_path == root_path && w.source_path == source_path
    }
}

/// `n` is the nexus that `config` declares in directory `root_path`; one
/// without a name is named after that directory.
pub open spec fn nexus_read_from(n: NexusModel, config: ManifestConfig, root_path: String) -> bool {
    config.nexus matches Some(c) && {
        &&& n.patch.wf()
        &&& n.name@ == match c.name {
            Some(x) => x@,
            None => dir_name_of(root_path@),
        }
        &&& n.version == c.version && n.description == c.description
        &&& n.members@ == c.members@ && n.exclude@ == c.exclude@
        &&& n.custom@ == c.custom@
        &&& n.patch.same_as(config.patch)
        &&& n.root_path == root_path && n.source_path == root_path
    }
}

impl WorkspaceModel {
    /// The workspace that `config` declares, found in directory `root_path`
    /// and read from `source_path`. A workspace is named after its directory.
    pub fn from_config(config: &ManifestConfig, root_path: String, source_path: String) -> (r: Result<WorkspaceModel, LoadError>)
        requires
            config.patch.wf(),
        ensures
            match r {
                Ok(w) => workspace_read_from(w, *config, root_path, source_path),
                Err(e) => config.workspace is None && e == LoadError::MissingSection(MagnetConfigType::Workspace),
            },
    {
        match &config.workspace {
            None => Err(LoadError::MissingSection(MagnetConfigType::Workspace)),
            Some(c) => Ok(WorkspaceModel {
                name: dir_name(&root_path),
                description: None,
                members: copy_strings(&c.members),
                exclude: copy_strings(&c.exclude),
                resolver: copy_opt(&c.resolver),
                custom: copy_pairs(&c.custom),
                dependencies: config_map_to_table(&c.dependencies),
                patch: config.patch.duplicate(),
                root_path,
                source_path,
            }),
        }
    }
}

impl NexusModel {
    /// The nexus that `config` declares, found in directory `root_path`. A
    /// nexus without a name is named after its directory.
    pub fn from_config(config: &ManifestConfig, root_path: String) -> (r: Result<NexusModel, LoadError>)
        requires
            config.patch.wf(),
        ensures
            match r {
                Ok(n) => nexus_read_from(n, *config, root_path),
                Err(e) => config.nexus is None && e == LoadError::MissingSection(MagnetConfigType::Nexus),
            },
    {
        match &config.nexus {
            None => Err(LoadError::MissingSection(MagnetConfigType::Nexus)),
            Some(c) => {
                let name = match &c.name {
                    Some(x) => x.clone(),
                    None => dir_name(&root_path),
                };
                Ok(NexusModel {
                    name,
                    version: copy_opt(&c.version),
                    description: copy_opt(&c.description),
                    members: copy_strings(&c.members),
                    exclude: copy_strings(&c.exclude),
                    patch: config.patch.duplicate(),
                    custom: copy_pairs(&c.custom),
                    source_path: root_path.clone(),
                    root_path,
                })
            },
        }
    }
}

impl ManifestModel {
    /// The model of the one tier that `config` declares, found in directory
    /// `root_path` and read from `source_path`. A document that declares no
    /// section, or more than one, is refused.
    pub fn from_config(config: &ManifestConfig, root_path: String, source_path: String) -> (r: Result<ManifestModel, LoadError>)
        requires
            config.patch.wf(),
        ensures
            r is Ok <==> config.section_count() == 1,
            r matches Err(e) ==> e == LoadError::AmbiguousOrMissingSection,
            r matches Ok(m) ==> m.wf() && match m {
                ManifestModel::Nexus(n) => nexus_read_from(n, *config, root_path),
                ManifestModel::Workspace(w) => workspace_read_from(w, *config, root_path, source_path),
                ManifestModel::Package(p) => package_read_from(p, *config, root_path, source_path),
            },
    {
        match config.section_kind() {
            Err(e) => Err(e),
            Ok(MagnetConfigType::Nexus) => match NexusModel::from_config(config, root_path) {
                Ok(n) => Ok(ManifestModel::Nexus(n)),
                Err(_) => Err(LoadError::AmbiguousOrMissingSection),
            },
            Ok(MagnetConfigType::Workspace) => match WorkspaceModel::from_config(config, root_path, source_path) {
                Ok(w) => Ok(ManifestModel::Workspace(w)),
                Err(_) => Err(LoadError::AmbiguousOrMissingSection),
            },
            Ok(MagnetConfigType::Package) => match PackageModel::from_config(config, root_path, source_path) {
                Ok(p) => Ok(ManifestModel::Package(p)),
                Err(_) => Err(LoadError::AmbiguousOrMissingSection),
            },
        }
    }
}

} // verus!
