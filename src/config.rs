//! Manifest files as they are written: sections and dependency tables.
//!
//! These are the plain shapes of a manifest document. Reading and writing
//! the text is left to the caller; the library turns documents into models
//! and models back into documents.

use vstd::prelude::*;
use crate::dependency::{DependencyModel, DependencyView};
use crate::models::PatchMap;
use crate::paths::{file_name, path_file_name};
use crate::table::DependencyTable;
use crate::text::{copy_opt, copy_opt_strings, copy_pairs, opt_view, opt_views, pair_views};

verus! {

/// The tier a manifest declares.
#[derive(Debug, Clone, Copy, PartialEq, Eq, Structural)]
pub enum MagnetConfigType {
    /// Top tier: groups workspaces and packages.
    Nexus,
    /// Groups packages.
    Workspace,
    /// One package.
    Package,
}

impl Default for MagnetConfigType {
    fn default() -> (r: MagnetConfigType)
        ensures
            r == MagnetConfigType::Package,
    {
        MagnetConfigType::Package
    }
}

/// A dependency written out in full.
#[derive(Debug, Clone, Default)]
pub struct DetailedDependencyConfig {
    pub version: Option<String>,
    pub path: Option<String>,
    pub nexus: Option<bool>,
    pub git: Option<String>,
    pub branch: Option<String>,
    pub tag: Option<String>,
    pub rev: Option<String>,
    pub features: Option<Vec<String>>,
    pub default_features: Option<bool>,
    pub workspace: Option<bool>,
    pub optional: Option<bool>,
    pub package: Option<String>,
    pub registry: Option<String>,
    pub artifact: Option<String>,
    pub target: Option<String>,
    /// Keys the record does not know, with their values as manifest text.
    pub custom: Vec<(String, String)>,
}

impl View for DetailedDependencyConfig {
    type V = DependencyView;

    open spec fn view(&self) -> DependencyView {
        DependencyView {
            version: opt_view(self.version),
            path: opt_view(self.path),
            nexus: self.nexus,
            git: opt_view(self.git),
            branch: opt_view(self.branch),
            tag: opt_view(self.tag),
            rev: opt_view(self.rev),
            features: opt_views(self.features),
            default_features: self.default_features,
            workspace: self.workspace,
            optional: self.optional,
            package: opt_view(self.package),
            registry: opt_view(self.registry),
            artifact: opt_view(self.artifact),
            target: opt_view(self.target),
            custom: pair_views(self.custom@),
        }
    }
}

/// A dependency as a manifest writes it: a bare version, or in full.
#[derive(Debug, Clone)]
pub enum DependencyConfig {
    Simple(String),
    Detailed(DetailedDependencyConfig),
}

impl DependencyConfig {
    /// The record this declaration stands for: a bare version is a record
    /// that holds only that version.
    pub open spec fn spec_model(&self) -> DependencyView {
        match self {
            DependencyConfig::Simple(v) => DependencyView {
                version: Some(v@),
                ..DependencyModel::empty_view()
            },
            DependencyConfig::Detailed(d) => d@,
        }
    }

    /// The record this declaration stands for.
    pub fn to_model(&self) -> (r: DependencyModel)
        ensures
            r@ == self.spec_model(),
    {
        match self {
            DependencyConfig::Simple(v) => DependencyModel::from_version(v.clone()),
            DependencyConfig::Detailed(d) => {
                let r = DependencyModel {
                    version: copy_opt(&d.version),
                    path: copy_opt(&d.path),
                    nexus: d.nexus,
                    git: copy_opt(&d.git),
                    branch: copy_opt(&d.branch),
                    tag: copy_opt(&d.tag),
                    rev: copy_opt(&d.rev),
                    features: copy_opt_strings(&d.features),
                    default_features: d.default_features,
                    workspace: d.workspace,
                    optional: d.optional,
                    package: copy_opt(&d.package),
                    registry: copy_opt(&d.registry),
                    artifact: copy_opt(&d.artifact),
                    target: copy_opt(&d.target),
                    custom: copy_pairs(&d.custom),
                };
                r
            },
        }
    }

    /// The full declaration of record `m`.
    pub fn from_model(m: &DependencyModel) -> (r: DependencyConfig)
        ensures
            r matches DependencyConfig::Detailed(d) && d@ == m@,
    {
        DependencyConfig::Detailed(DetailedDependencyConfig {
            version: copy_opt(&m.version),
            path: copy_opt(&m.path),
            nexus: m.nexus,
            git: copy_opt(&m.git),
            branch: copy_opt(&m.branch),
            tag: copy_opt(&m.tag),
            rev: copy_opt(&m.rev),
            features: copy_opt_strings(&m.features),
            default_features: m.default_features,
            workspace: m.workspace,
            optional: m.optional,
            package: copy_opt(&m.package),
            registry: copy_opt(&m.registry),
            artifact: copy_opt(&m.artifact),
            target: copy_opt(&m.target),
            custom: copy_pairs(&m.custom),
        })
    }
}

/// Reading back a record written out in full gives the record again,
/// unknown keys included.
pub proof fn lemma_dependency_round_trip(m: DependencyModel, d: DependencyConfig)
    requires
        d matches DependencyConfig::Detailed(x) && x@ == m@,
    ensures
        d.spec_model() == m@,
{
}

/// A dependency table as a manifest writes it, in the order written.
pub type DependencyConfigMap = Vec<(String, DependencyConfig)>;

/// The view of a written table: the record each name stands for, where a
/// name written twice takes its last declaration.
pub open spec fn config_map_view(s: Seq<(String, DependencyConfig)>) -> Map<Seq<char>, DependencyView>
    decreases s.len(),
{
    if s.len() == 0 {
        Map::empty()
    } else {
        config_map_view(s.drop_last()).insert(s.last().0@, s.last().1.spec_model())
    }
}

/// The table of records that a written table declares.
pub fn config_map_to_table(s: &DependencyConfigMap) -> (r: DependencyTable)
    ensures
        r.wf(),
        r@ == config_map_view(s@),
{
    let mut t = DependencyTable::new();
    let mut i: usize = 0;
    while i < s.len()
        invariant
            i <= s@.len(),
            t.wf(),
            t@ == config_map_view(s@.subrange(0, i as int)),
        decreases s@.len() - i,
    {
        let (name, c) = &s[i];
        t.insert(name.clone(), c.to_model());
        assert(s@.subrange(0, i + 1).drop_last() =~= s@.subrange(0, i as int));
        i = i + 1;
    }
    assert(s@.subrange(0, s@.len() as int) =~= s@);
    t
}

/// The written form of a table: every record in full.
pub fn table_to_config_map(t: &DependencyTable) -> (r: DependencyConfigMap)
    requires
        t.wf(),
    ensures
        config_map_view(r@) == t@,
{
    let mut r: DependencyConfigMap = Vec::new();
    let mut i: usize = 0;
    while i < t.entries.len()
        invariant
            t.wf(),
            i <= t.entries@.len(),
            r@.len() == i,
            forall|j: int| 0 <= j < i ==> (#[trigger] r@[j]).0@ == t.key(j) && r@[j].1.spec_model() == t.entries@[j].1@,
        decreases t.entries@.len() - i,
    {
        let (name, d) = &t.entries[i];
        r.push((name.clone(), DependencyConfig::from_model(d)));
        i = i + 1;
    }
    proof {
        lemma_config_map_distinct(r@, *t);
    }
    r
}

/// A written table whose names are those of a well-formed table, position
/// by position, declares that table.
proof fn lemma_config_map_distinct(s: Seq<(String, DependencyConfig)>, t: DependencyTable)
    requires
        t.wf(),
        s.len() == t.entries@.len(),
        forall|j: int| 0 <= j < s.len() ==> (#[trigger] s[j]).0@ == t.key(j) && s[j].1.spec_model() == t.entries@[j].1@,
    ensures
        config_map_view(s) == t@,
{
    lemma_config_map_prefix(s, t, s.len() as int);
    assert(s.subrange(0, s.len() as int) =~= s);
    assert forall|k: Seq<char>| #[trigger] config_map_view(s).contains_key(k) == t@.contains_key(k) by {
        if t.has(k) {
            let j = t.index_of(k);
            assert(t.key(j) == k);
        }
    }
    assert forall|k: Seq<char>| #[trigger] config_map_view(s).contains_key(k) implies config_map_view(s)[k] == t@[k] by {
        let j = t.index_of(k);
        t.lemma_entry(j);
    }
    assert(config_map_view(s) =~= t@);
}

/// The first `n` declarations give each of their names the record at that
/// name's position.
proof fn lemma_config_map_prefix(s: Seq<(String, DependencyConfig)>, t: DependencyTable, n: int)
    requires
        t.wf(),
        0 <= n <= s.len(),
        s.len() == t.entries@.len(),
        forall|j: int| 0 <= j < s.len() ==> (#[trigger] s[j]).0@ == t.key(j) && s[j].1.spec_model() == t.entries@[j].1@,
    ensures
        forall|k: Seq<char>| #[trigger] config_map_view(s.subrange(0, n)).contains_key(k) <==> (exists|j: int| 0 <= j < n && t.key(j) == k),
        forall|j: int| 0 <= j < n ==> #[trigger] config_map_view(s.subrange(0, n))[t.key(j)] == t.entries@[j].1@,
    decreases n,
{
    if n > 0 {
        lemma_config_map_prefix(s, t, n - 1);
        let sub = s.subrange(0, n);
        assert(sub.drop_last() =~= s.subrange(0, n - 1));
        assert(sub.last() == s[n - 1]);
        assert(config_map_view(sub) == config_map_view(s.subrange(0, n - 1)).insert(s[n - 1].0@, s[n - 1].1.spec_model()));
        assert forall|k: Seq<char>| #[trigger] config_map_view(s.subrange(0, n)).contains_key(k) <==> (exists|j: int| 0 <= j < n && t.key(j) == k) by {
            if config_map_view(s.subrange(0, n - 1)).contains_key(k) {
                let j = choose|j: int| 0 <= j < n - 1 && t.key(j) == k;
                assert(0 <= j < n && t.key(j) == k);
            }
            if exists|j: int| 0 <= j < n && t.key(j) == k {
                let j = choose|j: int| 0 <= j < n && t.key(j) == k;
                if j < n - 1 {
                    assert(config_map_view(s.subrange(0, n - 1)).contains_key(k));
                }
            }
        }
        assert forall|j: int| 0 <= j < n implies #[trigger] config_map_view(s.subrange(0, n))[t.key(j)] == t.entries@[j].1@ by {
            if j < n - 1 {
                assert(t.key(j) != t.key(n - 1));
            }
        }
    } else {
        assert(s.subrange(0, 0) =~= Seq::<(String, DependencyConfig)>::empty());
    }
}

/// The nexus section.
#[derive(Debug, Clone, Default)]
pub struct NexusConfig {
    pub name: Option<String>,
    pub version: Option<String>,
    pub members: Vec<String>,
    pub exclude: Vec<String>,
    pub description: Option<String>,
    pub custom: Vec<(String, String)>,
}

/// The package section.
#[derive(Debug, Clone, Default)]
pub struct PackageConfig {
    pub name: String,
    pub version: String,
    pub description: String,
    pub edition: Option<String>,
    pub authors: Vec<String>,
    pub homepage: Option<String>,
    pub repository: Option<String>,
    pub documentation: Option<String>,
    pub license: Option<String>,
    pub custom: Vec<(String, String)>,
}

/// The package section of the build tool's own manifest.
#[derive(Debug, Clone, Default)]
pub struct CargoPackageConfig {
    pub name: String,
    pub version: String,
    pub edition: String,
    pub description: String,
    pub authors: Vec<String>,
    pub homepage: Option<String>,
    pub repository: Option<String>,
    pub documentation: Option<String>,
    pub license: Option<String>,
}

/// The workspace section.
#[derive(Debug, Clone, Default)]
pub struct WorkspaceConfig {
    pub members: Vec<String>,
    pub exclude: Vec<String>,
    pub resolver: Option<String>,
    pub dependencies: DependencyConfigMap,
    pub custom: Vec<(String, String)>,
}

/// The workspace section of the build tool's own manifest.
#[derive(Debug, Clone, Default)]
pub struct CargoWorkspaceConfig {
    pub members: Vec<String>,
    pub exclude: Vec<String>,
    pub resolver: Option<String>,
    pub dependencies: DependencyConfigMap,
}

/// Why a manifest could not be turned into a model.
#[derive(Debug, Clone, Copy, PartialEq, Eq, Structural)]
pub enum LoadError {
    /// Not exactly one of the nexus, workspace and package sections.
    AmbiguousOrMissingSection,
    /// The section that the tier needs is absent.
    MissingSection(MagnetConfigType),
}

/// A manifest document.
#[derive(Debug, Clone)]
pub struct ManifestConfig {
    pub nexus: Option<NexusConfig>,
    pub workspace: Option<WorkspaceConfig>,
    pub package: Option<PackageConfig>,
    pub dependencies: DependencyConfigMap,
    pub dev_dependencies: DependencyConfigMap,
    pub build_dependencies: DependencyConfigMap,
    pub patch: PatchMap,
    /// The file the document was read from.
    pub source_path: Option<String>,
    pub config_type: MagnetConfigType,
}

impl ManifestConfig {
    /// A document with no section and no dependency.
    pub fn new() -> (r: ManifestConfig)
        ensures
            r.nexus is None && r.workspace is None && r.package is None,
            r.dependencies@.len() == 0 && r.dev_dependencies@.len() == 0 && r.build_dependencies@.len() == 0,
            r.patch.registries@.len() == 0,
            r.source_path is None,
            r.config_type == MagnetConfigType::Package,
    {
        ManifestConfig {
            nexus: None,
            workspace: None,
            package: None,
            dependencies: Vec::new(),
            dev_dependencies: Vec::new(),
            build_dependencies: Vec::new(),
            patch: PatchMap::new(),
            source_path: None,
            config_type: MagnetConfigType::Package,
        }
    }

    /// A document of tier `t`; a nexus document starts with an empty nexus
    /// section.
    pub fn new_with_type(t: MagnetConfigType) -> (r: ManifestConfig)
        ensures
            r.config_type == t,
            r.nexus is Some <==> t == MagnetConfigType::Nexus,
            r.workspace is None && r.package is None,
            r.dependencies@.len() == 0,
    {
        let mut c = ManifestConfig::new();
        c.config_type = t;
        match t {
            MagnetConfigType::Nexus => {
                c.nexus = Some(NexusConfig {
                    name: None,
                    version: None,
                    members: Vec::new(),
                    exclude: Vec::new(),
                    description: None,
                    custom: Vec::new(),
                });
            },
            _ => {},
        }
        c
    }

    /// The tier of the widest section present: nexus, then workspace, then
    /// package; `None` where there is none.
    pub open spec fn declared_type(&self) -> Option<MagnetConfigType> {
        if self.nexus is Some {
            Some(MagnetConfigType::Nexus)
        } else if self.workspace is Some {
            Some(MagnetConfigType::Workspace)
        } else if self.package is Some {
            Some(MagnetConfigType::Package)
        } else {
            None::<MagnetConfigType>
        }
    }

    /// The tier of the widest section present.
    pub fn config_type(&self) -> (r: Option<MagnetConfigType>)
        ensures
            r == self.declared_type(),
            r == if self.nexus is Some {
                Some(MagnetConfigType::Nexus)
            } else if self.workspace is Some {
                Some(MagnetConfigType::Workspace)
            } else if self.package is Some {
                Some(MagnetConfigType::Package)
            } else {
                None::<MagnetConfigType>
            },
    {
        if self.nexus.is_some() {
            Some(MagnetConfigType::Nexus)
        } else if self.workspace.is_some() {
            Some(MagnetConfigType::Workspace)
        } else if self.package.is_some() {
            Some(MagnetConfigType::Package)
        } else {
            None
        }
    }

    /// The number of the three sections that are present.
    pub open spec fn section_count(&self) -> int {
        (if self.nexus is Some { 1int } else { 0int }) + (if self.workspace is Some { 1int } else { 0int })
            + (if self.package is Some { 1int } else { 0int })
    }

    /// The tier of the document, which must declare exactly one section.
    pub fn section_kind(&self) -> (r: Result<MagnetConfigType, LoadError>)
        ensures
            match r {
                Ok(t) => self.section_count() == 1 && Some(t) == self.declared_type(),
                Err(e) => self.section_count() != 1 && e == LoadError::AmbiguousOrMissingSection,
            },
    {
        let count: u8 = (if self.nexus.is_some() { 1u8 } else { 0u8 }) + (if self.workspace.is_some() { 1u8 } else { 0u8 })
            + (if self.package.is_some() { 1u8 } else { 0u8 });
        if count != 1 {
            return Err(LoadError::AmbiguousOrMissingSection);
        }
        match self.config_type() {
            Some(t) => Ok(t),
            None => Err(LoadError::AmbiguousOrMissingSection),
        }
    }

    /// The package's name, where there is a package section with a name.
    pub fn get_name(&self) -> (r: Option<String>)
        ensures
            match self.package {
                Some(p) => if p.name@.len() == 0 { r is None } else { r == Some(p.name) },
                None => r is None,
            },
    {
        match &self.package {
            Some(p) => if p.name.as_str().unicode_len() == 0 {
                None
            } else {
                Some(p.name.clone())
            },
            None => None,
        }
    }

    /// The package's name as [`ManifestConfig::get_name`] gives it.
    pub open spec fn spec_name(&self) -> Option<Seq<char>> {
        match self.package {
            Some(p) => if p.name@.len() == 0 { None } else { Some(p.name@) },
            None => None,
        }
    }

    /// How a tree shows the manifest of directory `dir`: `./` for the
    /// current directory; the package name, followed for a nexus or a
    /// workspace by the directory's name in parentheses; the directory's
    /// name where there is no package name.
    pub open spec fn node_display_name(&self, dir: Seq<char>) -> Seq<char> {
        let dir_name = match path_file_name(dir) {
            Some(n) => n,
            None => dir,
        };
        if dir == "."@ {
            "./"@
        } else {
            match self.spec_name() {
                Some(n) => if self.declared_type() == Some(MagnetConfigType::Nexus)
                    || self.declared_type() == Some(MagnetConfigType::Workspace) {
                    n + " ("@ + dir_name + ")"@
                } else {
                    n
                },
                None => dir_name,
            }
        }
    }

    /// How a tree shows the manifest of directory `dir`; see
    /// [`ManifestConfig::node_display_name`].
    pub fn get_node_display_name(&self, dir: &String) -> (r: String)
        ensures
            r@ == self.node_display_name(dir@),
    {
        let dir_name = match file_name(dir.as_str()) {
            Some(n) => n,
            None => dir.clone(),
        };
        let dot = ".".to_string();
        if *dir == dot {
            return "./".to_string();
        }
        match self.get_name() {
            Some(name) => {
                let t = self.config_type();
                if t == Some(MagnetConfigType::Nexus) || t == Some(MagnetConfigType::Workspace) {
                    let mut s = name;
                    s.append(" (");
                    s.append(dir_name.as_str());
                    s.append(")");
                    s
                } else {
                    name
                }
            },
            None => dir_name,
        }
    }

    /// The package's version.
    pub fn get_version(&self) -> (r: Option<String>)
        ensures
            match self.package {
                Some(p) => r == Some(p.version),
                None => r is None,
            },
    {
        match &self.package {
            Some(p) => Some(p.version.clone()),
            None => None,
        }
    }

    /// The package's edition.
    pub fn get_edition(&self) -> (r: Option<String>)
        ensures
            match self.package {
                Some(p) => r == p.edition,
                None => r is None,
            },
    {
        match &self.package {
            Some(p) => copy_opt(&p.edition),
            None => None,
        }
    }

    /// The package's description.
    pub fn get_description(&self) -> (r: Option<String>)
        ensures
            match self.package {
                Some(p) => r == Some(p.description),
                None => r is None,
            },
    {
        match &self.package {
            Some(p) => Some(p.description.clone()),
            None => None,
        }
    }
}

} // verus!
