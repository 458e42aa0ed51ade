//! Dependency records and the tables that hold them by name.

use vstd::prelude::*;
use crate::text::{copy_opt, copy_opt_strings, copy_pairs, opt_view, opt_views, pair_views};

verus! {

/// One dependency as a manifest declares it.
#[derive(Debug, Clone, Default)]
pub struct DependencyModel {
    /// Required version.
    pub version: Option<String>,
    /// Local directory of the dependency.
    pub path: Option<String>,
    /// Locate the dependency by name among the packages of the nexus.
    pub nexus: Option<bool>,
    /// Repository URL.
    pub git: Option<String>,
    /// Repository branch.
    pub branch: Option<String>,
    /// Repository tag.
    pub tag: Option<String>,
    /// Repository revision.
    pub rev: Option<String>,
    /// Features to enable.
    pub features: Option<Vec<String>>,
    /// Whether default features are enabled.
    pub default_features: Option<bool>,
    /// Take the definition from the enclosing workspace's table.
    pub workspace: Option<bool>,
    /// Whether the dependency is optional.
    pub optional: Option<bool>,
    /// Package name, where it differs from the dependency's name.
    pub package: Option<String>,
    /// Registry to fetch from.
    pub registry: Option<String>,
    /// Artifact to use.
    pub artifact: Option<String>,
    /// Target to use.
    pub target: Option<String>,
    /// Keys that the record does not know, each with its value as manifest text.
    pub custom: Vec<(String, String)>,
}

/// What a [`DependencyModel`] holds, as mathematical values.
pub struct DependencyView {
    pub version: Option<Seq<char>>,
    pub path: Option<Seq<char>>,
    pub nexus: Option<bool>,
    pub git: Option<Seq<char>>,
    pub branch: Option<Seq<char>>,
    pub tag: Option<Seq<char>>,
    pub rev: Option<Seq<char>>,
    pub features: Option<Seq<Seq<char>>>,
    pub default_features: Option<bool>,
    pub workspace: Option<bool>,
    pub optional: Option<bool>,
    pub package: Option<Seq<char>>,
    pub registry: Option<Seq<char>>,
    pub artifact: Option<Seq<char>>,
    pub target: Option<Seq<char>>,
    pub custom: Seq<(Seq<char>, Seq<char>)>,
}

impl View for DependencyModel {
    type V = DependencyView;

    open spec fn view(&self) -> DependencyView {
        DependencyView {
            version: opt_view(self.version),
            path: opt_view(self.path),
            nexus: self.nexus,
            git: opt_view(self.git),
            branch: opt_view(self.branch),
            tag: opt_view(self.tag),
            rev: opt_view(self.rev),
            features: opt_views(self.features),
            default_features: self.default_features,
            workspace: self.workspace,
            optional: self.optional,
            package: opt_view(self.package),
            registry: opt_view(self.registry),
            artifact: opt_view(self.artifact),
            target: opt_view(self.target),
            custom: pair_views(self.custom@),
        }
    }
}

impl DependencyView {
    /// The flag to locate the dependency by name, absent meaning no.
    pub open spec fn is_nexus(self) -> bool {
        self.nexus == Some(true)
    }

    /// The flag to use the workspace's definition, absent meaning no.
    pub open spec fn is_workspace(self) -> bool {
        self.workspace == Some(true)
    }

    /// The optional flag, absent meaning no.
    pub open spec fn is_optional(self) -> bool {
        self.optional == Some(true)
    }

    /// The record with `path` set to `p` and both resolution flags cleared.
    pub open spec fn located_at(self, p: Seq<char>) -> DependencyView {
        DependencyView { path: Some(p), nexus: None, workspace: None, ..self }
    }
}

impl DependencyModel {
    /// A record that holds only a version.
    pub fn from_version(version: String) -> (r: DependencyModel)
        ensures
            r@ == (DependencyView {
                version: Some(version@),
                ..DependencyModel::empty_view()
            }),
    {
        let r = DependencyModel {
            version: Some(version),
            path: None,
            nexus: None,
            git: None,
            branch: None,
            tag: None,
            rev: None,
            features: None,
            default_features: None,
            workspace: None,
            optional: None,
            package: None,
            registry: None,
            artifact: None,
            target: None,
            custom: Vec::new(),
        };
        assert(pair_views(r.custom@) =~= Seq::empty());
        r
    }

    /// A record that holds only a path.
    pub fn from_path(path: String) -> (r: DependencyModel)
        ensures
            r@ == (DependencyView { path: Some(path@), ..DependencyModel::empty_view() }),
    {
        let r = DependencyModel {
            version: None,
            path: Some(path),
            nexus: None,
            git: None,
            branch: None,
            tag: None,
            rev: None,
            features: None,
            default_features: None,
            workspace: None,
            optional: None,
            package: None,
            registry: None,
            artifact: None,
            target: None,
            custom: Vec::new(),
        };
        assert(pair_views(r.custom@) =~= Seq::empty());
        r
    }

    /// The view of a record in which nothing is set.
    pub open spec fn empty_view() -> DependencyView {
        DependencyView {
            version: None,
            path: None,
            nexus: None,
            git: None,
            branch: None,
            tag: None,
            rev: None,
            features: None,
            default_features: None,
            workspace: None,
            optional: None,
            package: None,
            registry: None,
            artifact: None,
            target: None,
            custom: Seq::empty(),
        }
    }

    /// Whether the dependency is located by name in the nexus.
    pub fn nexus(&self) -> (r: bool)
        ensures
            r == self@.is_nexus(),
    {
        match self.nexus {
            Some(b) => b,
            None => false,
        }
    }

    /// Whether the dependency takes the workspace's definition.
    pub fn workspace(&self) -> (r: bool)
        ensures
            r == self@.is_workspace(),
    {
        match self.workspace {
            Some(b) => b,
            None => false,
        }
    }

    /// Whether default features are enabled; they are unless disabled.
    pub fn default_features(&self) -> (r: bool)
        ensures
            r == (self.default_features != Some(false)),
    {
        match self.default_features {
            Some(b) => b,
            None => true,
        }
    }

    /// Whether the dependency is optional.
    pub fn optional(&self) -> (r: bool)
        ensures
            r == self@.is_optional(),
    {
        match self.optional {
            Some(b) => b,
            None => false,
        }
    }

    /// The features to enable, none where the record names none.
    pub fn features(&self) -> (r: Vec<String>)
        ensures
            self@.features is Some ==> crate::text::views(r@) == self@.features->Some_0,
            self@.features is None ==> r@.len() == 0,
    {
        match &self.features {
            Some(v) => crate::text::copy_strings(v),
            None => Vec::new(),
        }
    }

    /// A copy of the record.
    pub fn duplicate(&self) -> (r: DependencyModel)
        ensures
            r@ == self@,
    {
        let c = copy_pairs(&self.custom);
        let f = copy_opt_strings(&self.features);
        let r = DependencyModel {
            version: copy_opt(&self.version),
            path: copy_opt(&self.path),
            nexus: self.nexus,
            git: copy_opt(&self.git),
            branch: copy_opt(&self.branch),
            tag: copy_opt(&self.tag),
            rev: copy_opt(&self.rev),
            features: f,
            default_features: self.default_features,
            workspace: self.workspace,
            optional: self.optional,
            package: copy_opt(&self.package),
            registry: copy_opt(&self.registry),
            artifact: copy_opt(&self.artifact),
            target: copy_opt(&self.target),
            custom: c,
        };
        assert(pair_views(r.custom@) == pair_views(self.custom@));
        r
    }

    /// The record with `path` set to `p`, all else kept.
    pub fn with_path(&self, p: String) -> (r: DependencyModel)
        ensures
            r@ == (DependencyView { path: Some(p@), ..self@ }),
    {
        let mut r = self.duplicate();
        r.path = Some(p);
        r
    }

    /// The record with `path` set and both resolution flags cleared.
    pub fn located_at(&self, p: String) -> (r: DependencyModel)
        ensures
            r@ == self@.located_at(p@),
    {
        let mut r = self.duplicate();
        r.path = Some(p);
        r.nexus = None;
        r.workspace = None;
        r
    }
}

} // verus!
