use magnet::config::{DependencyConfig, ManifestConfig, PackageConfig, WorkspaceConfig};
use magnet::dependency::DependencyModel;
use magnet::manager::{check, ManifestManager, ResolveError};
use magnet::models::{ManifestModel, NexusModel, PackageModel, PatchMap, WorkspaceModel};
use magnet::table::DependencyTable;
use magnet::{generate, maybe_join};

fn package(name: &str, root: &str, deps: Vec<(&str, DependencyModel)>) -> PackageModel {
    let mut t = DependencyTable::new();
    for (n, d) in deps {
        t.insert(n.to_string(), d);
    }
    PackageModel {
        name: name.to_string(),
        version: "0.1.0".to_string(),
        edition: "2021".to_string(),
        dependencies: t,
        root_path: root.to_string(),
        source_path: format!("{}/Cargo.toml", root),
        ..PackageModel::default()
    }
}

fn workspace(name: &str, root: &str, deps: Vec<(&str, DependencyModel)>) -> WorkspaceModel {
    let mut t = DependencyTable::new();
    for (n, d) in deps {
        t.insert(n.to_string(), d);
    }
    WorkspaceModel {
        name: name.to_string(),
        members: vec!["*".to_string()],
        dependencies: t,
        root_path: root.to_string(),
        source_path: format!("{}/Magnet.toml", root),
        ..WorkspaceModel::default()
    }
}

fn located() -> DependencyModel {
    DependencyModel { nexus: Some(true), version: Some("0.1".to_string()), ..DependencyModel::default() }
}

fn from_workspace() -> DependencyModel {
    DependencyModel { workspace: Some(true), ..DependencyModel::default() }
}

fn manager(packages: Vec<PackageModel>, workspaces: Vec<WorkspaceModel>) -> ManifestManager {
    ManifestManager {
        root_path: "/n".to_string(),
        root_manifest: ManifestModel::Nexus(NexusModel {
            name: "n".to_string(),
            root_path: "/n".to_string(),
            source_path: "/n".to_string(),
            ..NexusModel::default()
        }),
        packages,
        workspaces,
    }
}

#[test]
fn sole_package_gives_relative_path_and_clears_flags() {
    let a = package("a", "/n/w1/a", vec![]);
    let m = manager(vec![a], vec![]);
    let r = m
        .resolve_dependency(&"/n/w2/b".to_string(), &"a".to_string(), &located())
        .unwrap();
    assert_eq!(r.path, Some("../../w1/a".to_string()));
    assert_eq!(r.nexus, None);
    assert_eq!(r.workspace, None);
    assert_eq!(r.version, Some("0.1".to_string()));
}

#[test]
fn shared_name_is_ambiguous_and_names_all_candidates() {
    let a1 = package("a", "/n/w1/a", vec![]);
    let a2 = package("a", "/n/w2/a", vec![]);
    let m = manager(vec![a1, a2], vec![]);
    let r = m.resolve_dependency(&"/n/w3/c".to_string(), &"a".to_string(), &located());
    assert_eq!(
        r.err(),
        Some(ResolveError::Ambiguous {
            name: "a".to_string(),
            candidates: vec!["/n/w1/a".to_string(), "/n/w2/a".to_string()],
        })
    );
}

#[test]
fn no_candidate_leaves_dependency_unchanged() {
    let m = manager(vec![package("x", "/n/x", vec![])], vec![]);
    let r = m.resolve_dependency(&"/n/b".to_string(), &"a".to_string(), &located()).unwrap();
    assert_eq!(r.nexus, Some(true));
    assert_eq!(r.path, None);
}

#[test]
fn plain_dependency_is_left_alone() {
    let m = manager(vec![package("a", "/n/a", vec![])], vec![]);
    let d = DependencyModel::from_version("1.0".to_string());
    let r = m.resolve_dependency(&"/n/b".to_string(), &"a".to_string(), &d).unwrap();
    assert_eq!(r.version, Some("1.0".to_string()));
    assert_eq!(r.path, None);
}

#[test]
fn workspace_definition_relative_path_is_reexpressed() {
    let shared = DependencyModel::from_path("crates/util".to_string());
    let w = workspace("w1", "/n/w1", vec![("util", shared)]);
    let m = manager(vec![], vec![w]);
    let r = m.resolve_dependency(&"/n/w2/b".to_string(), &"util".to_string(), &from_workspace()).unwrap();
    assert_eq!(r.path, Some("../../w1/crates/util".to_string()));
    assert_eq!(r.workspace, None);
}

#[test]
fn workspace_definition_absolute_path_is_reexpressed() {
    let shared = DependencyModel::from_path("/opt/util".to_string());
    let w = workspace("w1", "/n/w1", vec![("util", shared)]);
    let m = manager(vec![], vec![w]);
    let r = m.resolve_dependency(&"/n/w2/b".to_string(), &"util".to_string(), &from_workspace()).unwrap();
    assert_eq!(r.path, Some("../../../opt/util".to_string()));
    assert_eq!(r.workspace, None);
}

#[test]
fn workspace_definition_without_path_is_an_error() {
    let shared = DependencyModel::from_version("1".to_string());
    let w = workspace("w1", "/n/w1", vec![("serde", shared)]);
    let m = manager(vec![], vec![w]);
    let r = m.resolve_dependency(&"/n/w2/b".to_string(), &"serde".to_string(), &from_workspace());
    assert_eq!(r.err(), Some(ResolveError::MissingPath { name: "serde".to_string() }));
}

#[test]
fn two_defining_workspaces_are_ambiguous() {
    let w1 = workspace("w1", "/n/w1", vec![("u", DependencyModel::from_path("u".to_string()))]);
    let w2 = workspace("w2", "/n/w2", vec![("u", DependencyModel::from_path("u".to_string()))]);
    let m = manager(vec![], vec![w1, w2]);
    let r = m.resolve_dependency(&"/n/b".to_string(), &"u".to_string(), &from_workspace());
    assert_eq!(
        r.err(),
        Some(ResolveError::Ambiguous {
            name: "u".to_string(),
            candidates: vec!["/n/w1".to_string(), "/n/w2".to_string()],
        })
    );
}

#[test]
fn unreachable_target_is_an_error() {
    let w = workspace("w1", "rel", vec![("u", DependencyModel::from_path("u".to_string()))]);
    let m = manager(vec![], vec![w]);
    let r = m.resolve_dependency(&"/n/b".to_string(), &"u".to_string(), &from_workspace());
    assert_eq!(
        r.err(),
        Some(ResolveError::NoRelativePath { name: "u".to_string(), target: "rel/u".to_string() })
    );
}

#[test]
fn optional_failure_is_dropped_required_failure_aborts() {
    let a1 = package("a", "/n/a1", vec![]);
    let a2 = package("a", "/n/a2", vec![]);
    let x = package("x", "/n/x", vec![]);
    let m = manager(vec![a1, a2, x], vec![]);
    let optional_a = DependencyModel { optional: Some(true), ..located() };
    let mut p = package("p", "/n/p", vec![("a", optional_a), ("x", located())]);
    m.resolve_package_dependencies(&mut p).unwrap();
    assert!(!p.dependencies.contains_key(&"a".to_string()));
    assert_eq!(
        p.dependencies.get(&"x".to_string()).unwrap().path,
        Some("../x".to_string())
    );

    let mut q = package("q", "/n/q", vec![("a", located())]);
    let r = m.resolve_package_dependencies(&mut q);
    assert!(matches!(r, Err(ResolveError::Ambiguous { .. })));
    assert!(q.dependencies.contains_key(&"a".to_string()));
}

#[test]
fn check_reports_the_first_failing_package() {
    let a1 = package("a", "/n/a1", vec![]);
    let a2 = package("a", "/n/a2", vec![]);
    let m = manager(vec![a1, a2], vec![]);
    let good = package("g", "/n/g", vec![("z", DependencyModel::from_version("1".to_string()))]);
    assert_eq!(check(&m, &vec![good]), Ok(()));
    let bad = package("b", "/n/b", vec![("a", located())]);
    assert!(matches!(check(&m, &vec![bad]), Err(ResolveError::Ambiguous { .. })));
}

#[test]
fn generating_rewrites_nexus_dependency_to_sibling_workspace() {
    let a = package("a", "/n/W1/a", vec![]);
    let b = package("b", "/n/W2/b", vec![("a", located())]);
    let w1 = workspace("W1", "/n/W1", vec![]);
    let w2 = workspace("W2", "/n/W2", vec![]);
    let m = manager(vec![a, b.clone()], vec![w1, w2.clone()]);
    let out = generate(m, &w2, &vec![b]).unwrap();
    assert_eq!(out.len(), 2);
    assert_eq!(out[0].path, "/n/W2/Cargo.toml");
    assert_eq!(out[1].path, "/n/W2/b/Cargo.toml");
    let deps = &out[1].config.dependencies;
    assert_eq!(deps.len(), 1);
    assert_eq!(deps[0].0, "a");
    match &deps[0].1 {
        DependencyConfig::Detailed(d) => {
            assert_eq!(d.path, Some("../../W1/a".to_string()));
            assert_eq!(d.nexus, None);
        }
        DependencyConfig::Simple(_) => panic!("expected a detailed dependency"),
    }
    assert!(out[0].config.workspace.is_some());
}

#[test]
fn maybe_join_keeps_absolute_and_joins_relative() {
    assert_eq!(maybe_join("/root", "/abs/x"), "/abs/x");
    assert_eq!(maybe_join("/root", "rel/x"), "/root/rel/x");
}

#[test]
fn written_package_reads_back_the_same() {
    let mut p = package("p", "/n/p", vec![("a", located()), ("b", DependencyModel::from_version("2".to_string()))]);
    p.custom = vec![("publish".to_string(), "false".to_string())];
    p.authors = vec!["someone".to_string()];
    let c = magnet::generator::package_manifest(&p);
    let q = PackageModel::from_config(&c, p.root_path.clone(), p.source_path.clone()).unwrap();
    assert_eq!(q.name, p.name);
    assert_eq!(q.version, p.version);
    assert_eq!(q.edition, p.edition);
    assert_eq!(q.authors, p.authors);
    assert_eq!(q.custom, p.custom);
    assert_eq!(q.dependencies.len(), 2);
    assert_eq!(q.dependencies.get(&"a".to_string()).unwrap().nexus, Some(true));
    assert_eq!(q.dependencies.get(&"b".to_string()).unwrap().version, Some("2".to_string()));
}

#[test]
fn document_sections_decide_the_tier() {
    let mut c = ManifestConfig::new();
    assert_eq!(c.section_kind(), Err(magnet::config::LoadError::AmbiguousOrMissingSection));
    c.package = Some(PackageConfig { name: "p".to_string(), ..PackageConfig::default() });
    assert_eq!(c.section_kind(), Ok(magnet::config::MagnetConfigType::Package));
    c.workspace = Some(WorkspaceConfig::default());
    assert_eq!(c.section_kind(), Err(magnet::config::LoadError::AmbiguousOrMissingSection));
    assert!(ManifestModel::from_config(&c, "/d".to_string(), "/d/Magnet.toml".to_string()).is_err());
    c.package = None;
    match ManifestModel::from_config(&c, "/d".to_string(), "/d/Magnet.toml".to_string()) {
        Ok(ManifestModel::Workspace(w)) => assert_eq!(w.name, "d"),
        _ => panic!("expected a workspace"),
    }
    let none = ManifestConfig::new();
    assert_eq!(
        PackageModel::from_config(&none, "/d".to_string(), "/d/Cargo.toml".to_string()).err(),
        Some(magnet::config::LoadError::MissingSection(magnet::config::MagnetConfigType::Package))
    );
}

#[test]
fn package_without_edition_gets_the_default() {
    let mut c = ManifestConfig::new();
    c.package = Some(PackageConfig { name: "p".to_string(), version: "1.0.0".to_string(), ..PackageConfig::default() });
    c.dependencies.push(("serde".to_string(), DependencyConfig::Simple("1.0.0".to_string())));
    c.dependencies.push(("serde".to_string(), DependencyConfig::Simple("1.0.1".to_string())));
    let p = PackageModel::from_config(&c, "/p".to_string(), "/p/Magnet.toml".to_string()).unwrap();
    assert_eq!(p.edition, "2024");
    assert_eq!(p.dependencies.len(), 1);
    assert_eq!(p.dependencies.get(&"serde".to_string()).unwrap().version, Some("1.0.1".to_string()));
    let _ = PatchMap::new();
}
