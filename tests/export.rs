use magnet::dependency::DependencyModel;
use magnet::export::{ExportAction, ExportError, ExportEvent, ExportOptions, Exporter, LinkRequest};
use magnet::manager::ManifestManager;
use magnet::models::{ManifestModel, NexusModel, PackageModel, PatchMap, WorkspaceModel};
use magnet::table::DependencyTable;
use magnet::export;

fn package(name: &str, root: &str, deps: Vec<(&str, DependencyModel)>) -> PackageModel {
    let mut t = DependencyTable::new();
    for (n, d) in deps {
        t.insert(n.to_string(), d);
    }
    PackageModel {
        name: name.to_string(),
        version: "0.1.0".to_string(),
        edition: "2021".to_string(),
        description: format!("{} package", name),
        dependencies: t,
        root_path: root.to_string(),
        source_path: format!("{}/Cargo.toml", root),
        ..PackageModel::default()
    }
}

fn path_dep(p: &str) -> DependencyModel {
    DependencyModel::from_path(p.to_string())
}

fn manager(root: &str, packages: Vec<PackageModel>, patch: PatchMap) -> ManifestManager {
    ManifestManager {
        root_path: root.to_string(),
        root_manifest: ManifestModel::Nexus(NexusModel {
            name: "n".to_string(),
            patch,
            root_path: root.to_string(),
            source_path: root.to_string(),
            ..NexusModel::default()
        }),
        packages,
        workspaces: vec![],
    }
}

/// Drives the engine, answering from a fixed view of the filesystem:
/// canonical paths drop `/./` and resolve `x/../`, directories map to
/// the packages they hold.
fn run(ex: &mut Exporter, world: &[(&str, Vec<PackageModel>)]) -> Result<Vec<String>, ExportError> {
    let mut event = ExportEvent::Proceed;
    let mut asked = Vec::new();
    loop {
        match ex.step(event)? {
            ExportAction::Continue => event = ExportEvent::Proceed,
            ExportAction::Canonicalize(p) => {
                asked.push(p.clone());
                event = ExportEvent::Canonical(canonical(&p));
            }
            ExportAction::LoadPackages(dir) => {
                asked.push(format!("load {}", dir));
                let found = world.iter().find(|(d, _)| *d == dir).map(|(_, v)| v.clone());
                event = ExportEvent::Packages(found);
            }
            ExportAction::Finished => return Ok(asked),
        }
    }
}

fn canonical(p: &str) -> Option<String> {
    let mut parts: Vec<&str> = Vec::new();
    for c in p.split('/') {
        match c {
            "" | "." => {}
            ".." => {
                parts.pop();
            }
            x => parts.push(x),
        }
    }
    if parts.iter().any(|x| *x == "missing") {
        return None;
    }
    Some(format!("/{}", parts.join("/")))
}

fn chain() -> (PackageModel, Vec<(&'static str, Vec<PackageModel>)>) {
    let r = package("r", "/src/r", vec![]);
    let q = package("q", "/src/q", vec![("r", path_dep("../r"))]);
    let p = package("p", "/src/p", vec![("q", path_dep("../q"))]);
    (p, vec![("/src/q", vec![q]), ("/src/r", vec![r])])
}

fn start(p: &PackageModel, root: &str, patch: PatchMap) -> Exporter {
    Exporter::new(
        ManifestModel::Package(p.clone()),
        vec![p.clone()],
        manager(root, vec![], patch),
        "/out".to_string(),
        "crates".to_string(),
    )
}

#[test]
fn export_chain_links_all_three_packages() {
    let (p, world) = chain();
    let mut ex = start(&p, "/src/p", PatchMap::new());
    run(&mut ex, &world).unwrap();
    let plan = export(&ex);
    let sources: Vec<&str> = plan.links.iter().map(|l| l.source.as_str()).collect();
    assert_eq!(sources, vec!["/src/p", "/src/q", "/src/r"]);
    let targets: Vec<&str> = plan.links.iter().map(|l| l.target.as_str()).collect();
    assert_eq!(targets, vec!["/out/crates/p", "/out/crates/q", "/out/crates/r"]);
    assert_eq!(plan.workspace.members, vec!["crates/p", "crates/q", "crates/r"]);
    assert_eq!(plan.workspace.name, "p");
    assert_eq!(plan.workspace.root_path, "/out");
    assert_eq!(plan.workspace.resolver, Some("2".to_string()));
    for n in ["p", "q", "r"] {
        let d = plan.workspace.dependencies.get(&n.to_string()).unwrap();
        assert_eq!(d.path, Some(format!("./crates/{}", n)));
    }
}

#[test]
fn export_twice_gives_the_same_plan() {
    let (p, world) = chain();
    let mut a = start(&p, "/src/p", PatchMap::new());
    let mut b = start(&p, "/src/p", PatchMap::new());
    let asked_a = run(&mut a, &world).unwrap();
    let asked_b = run(&mut b, &world).unwrap();
    assert_eq!(asked_a, asked_b);
    let pa = export(&a);
    let pb = export(&b);
    assert_eq!(pa.links, pb.links);
    assert_eq!(pa.workspace.members, pb.workspace.members);
    assert_eq!(pa.workspace.dependencies.entries.len(), pb.workspace.dependencies.entries.len());
    for (n, d) in &pa.workspace.dependencies.entries {
        assert_eq!(pb.workspace.dependencies.get(n).unwrap().describe(), d.describe());
    }
}

#[test]
fn diamond_links_shared_package_once() {
    let d = package("d", "/src/d", vec![]);
    let b = package("b", "/src/b", vec![("d", path_dep("../d"))]);
    let c = package("c", "/src/c", vec![("d", path_dep("../d"))]);
    let a = package("a", "/src/a", vec![("b", path_dep("../b")), ("c", path_dep("../c"))]);
    let world = vec![("/src/b", vec![b]), ("/src/c", vec![c]), ("/src/d", vec![d])];
    let mut ex = start(&a, "/src/a", PatchMap::new());
    let asked = run(&mut ex, &world).unwrap();
    let plan = export(&ex);
    assert_eq!(plan.links.len(), 4);
    let d_links = plan.links.iter().filter(|l| l.source == "/src/d").count();
    assert_eq!(d_links, 1);
    let d_loads = asked.iter().filter(|x| *x == "load /src/d").count();
    assert_eq!(d_loads, 1);
    assert_eq!(plan.workspace.members, vec!["crates/a", "crates/b", "crates/c", "crates/d"]);
}

#[test]
fn same_name_at_another_directory_is_a_conflict() {
    let other = package("b", "/elsewhere/b", vec![]);
    let b = package("b", "/src/b", vec![]);
    let a = package("a", "/src/a", vec![("b", path_dep("../b"))]);
    let world = vec![("/src/b", vec![b, other])];
    let mut ex = start(&a, "/src/a", PatchMap::new());
    run(&mut ex, &world).unwrap();
    assert_eq!(ex.links.len(), 2);
    assert_eq!(
        ex.conflicts,
        vec![LinkRequest { source: "/elsewhere/b".to_string(), target: "/out/crates/b".to_string() }]
    );
}

#[test]
fn failure_below_the_start_is_skipped() {
    let q = package("q", "/src/q", vec![("gone", path_dep("../missing"))]);
    let p = package("p", "/src/p", vec![("q", path_dep("../q"))]);
    let world = vec![("/src/q", vec![q])];
    let mut ex = start(&p, "/src/p", PatchMap::new());
    run(&mut ex, &world).unwrap();
    assert_eq!(ex.links.len(), 2);
    assert_eq!(ex.skipped, vec![ExportError::Canonicalize { name: "gone".to_string() }]);
}

#[test]
fn failure_at_the_start_fails_the_export() {
    let p = package("p", "/src/p", vec![("gone", path_dep("../missing"))]);
    let mut ex = start(&p, "/src/p", PatchMap::new());
    let r = run(&mut ex, &[]);
    assert_eq!(r.err(), Some(ExportError::Canonicalize { name: "gone".to_string() }));
}

#[test]
fn unexpected_event_is_refused() {
    let (p, _) = chain();
    let mut ex = start(&p, "/src/p", PatchMap::new());
    let r = ex.step(ExportEvent::Canonical(Some("/x".to_string())));
    assert_eq!(r.err(), Some(ExportError::UnexpectedEvent));
}

#[test]
fn relative_override_is_linked_and_rewritten() {
    let p = package("p", "/n/p", vec![]);
    let mut t = DependencyTable::new();
    t.insert("z".to_string(), path_dep("vendor/z"));
    t.insert("abs".to_string(), path_dep("/opt/abs"));
    let patch = PatchMap { registries: vec![("crates-io".to_string(), t)] };
    let mut ex = start(&p, "/n", patch);
    run(&mut ex, &[]).unwrap();
    let plan = export(&ex);
    let sources: Vec<&str> = plan.links.iter().map(|l| l.source.as_str()).collect();
    assert_eq!(sources, vec!["/n/p", "/n/vendor/z"]);
    let table = &plan.workspace.patch.registries[0].1;
    assert_eq!(table.get(&"z".to_string()).unwrap().path, Some("crates/z".to_string()));
    assert_eq!(table.get(&"abs".to_string()).unwrap().path, Some("/opt/abs".to_string()));
}

#[test]
fn default_export_options() {
    let o = ExportOptions::default();
    assert_eq!(o.package_path, ".");
    assert_eq!(o.crates_dir, "crates");
    assert!(o.clean && o.copy_lock && o.include_cargo_dir && o.symlink_cargo_dir);
    assert_eq!(o.export_dir, None);
}

#[test]
fn members_come_out_sorted() {
    let zz = package("zz", "/src/zz", vec![]);
    let aa = package("aa", "/src/aa", vec![]);
    let p = package("p", "/src/p", vec![("zz", path_dep("../zz")), ("aa", path_dep("../aa"))]);
    let world = vec![("/src/zz", vec![zz]), ("/src/aa", vec![aa])];
    let mut ex = start(&p, "/src/p", PatchMap::new());
    run(&mut ex, &world).unwrap();
    assert_eq!(ex.workspace_members, vec!["crates/p", "crates/zz", "crates/aa"]);
    let plan = export(&ex);
    assert_eq!(plan.workspace.members, vec!["crates/aa", "crates/p", "crates/zz"]);
}

#[test]
fn workspace_export_visits_members_in_order() {
    let a = package("a", "/ws/a", vec![]);
    let b = package("b", "/ws/b", vec![]);
    let mut shared = DependencyTable::new();
    shared.insert("serde".to_string(), DependencyModel::from_version("1".to_string()));
    shared.insert("a".to_string(), DependencyModel::from_version("0.1".to_string()));
    let w = WorkspaceModel {
        name: "ws".to_string(),
        resolver: Some("3".to_string()),
        dependencies: shared,
        root_path: "/ws".to_string(),
        ..WorkspaceModel::default()
    };
    let mut ex = Exporter::new(
        ManifestModel::Workspace(w),
        vec![a, b],
        manager("/ws", vec![], PatchMap::new()),
        "/out".to_string(),
        "pkgs".to_string(),
    );
    run(&mut ex, &[]).unwrap();
    let sources: Vec<&str> = ex.links.iter().map(|l| l.source.as_str()).collect();
    assert_eq!(sources, vec!["/ws/a", "/ws/b"]);
    let plan = export(&ex);
    assert_eq!(plan.workspace.name, "ws");
    assert_eq!(plan.workspace.resolver, Some("3".to_string()));
    let deps = &plan.workspace.dependencies;
    assert_eq!(deps.get(&"serde".to_string()).unwrap().path, None);
    let a_dep = deps.get(&"a".to_string()).unwrap();
    assert_eq!(a_dep.path, Some("./pkgs/a".to_string()));
    assert_eq!(a_dep.version, Some("0.1".to_string()));
    assert_eq!(deps.get(&"b".to_string()).unwrap().path, Some("./pkgs/b".to_string()));
}

#[test]
fn ambiguous_dependency_at_the_start_fails_the_export() {
    let x1 = package("x", "/n/x1", vec![]);
    let x2 = package("x", "/n/x2", vec![]);
    let located = DependencyModel { nexus: Some(true), ..DependencyModel::default() };
    let p = package("p", "/n/p", vec![("x", located)]);
    let mut ex = Exporter::new(
        ManifestModel::Package(p.clone()),
        vec![p],
        manager("/n", vec![x1, x2], PatchMap::new()),
        "/out".to_string(),
        "crates".to_string(),
    );
    let r = run(&mut ex, &[]);
    assert!(matches!(r, Err(ExportError::Resolve(magnet::manager::ResolveError::Ambiguous { .. }))));
}
