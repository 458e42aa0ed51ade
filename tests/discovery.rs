use magnet::config::{MagnetConfigType, ManifestConfig, NexusConfig, PackageConfig};
use magnet::crates::LogLevel;
use magnet::dependency::DependencyModel;
use magnet::discovery::{find_widest_manifest, subtract_excluded, widest_step};
use magnet::init::detect_config_type_from_path;
use magnet::models::{PackageModel, WorkspaceModel};
use magnet::submodule;
use magnet::table::DependencyTable;
use magnet::tree::{tree, ManifestTree, WorkspaceTree};

#[test]
fn package_alone_is_its_own_widest_manifest() {
    assert_eq!(find_widest_manifest(&vec![Some(1)]), Some(0));
    assert_eq!(find_widest_manifest(&vec![Some(1), None, None]), Some(0));
}

#[test]
fn search_climbs_to_the_nexus_and_stops_below_it() {
    assert_eq!(find_widest_manifest(&vec![Some(1), Some(2), None, Some(3), Some(1)]), Some(3));
    assert_eq!(find_widest_manifest(&vec![Some(1), Some(1)]), Some(1));
    assert_eq!(find_widest_manifest(&vec![Some(2), Some(1), Some(3)]), Some(0));
    assert_eq!(find_widest_manifest(&vec![None, None]), None);
    assert_eq!(find_widest_manifest(&vec![]), None);
    assert_eq!(widest_step(Some((0, 2)), 1, Some(1)), (Some((0, 2)), false));
    assert_eq!(widest_step(None, 4, None), (None, true));
}

#[test]
fn excluded_members_are_removed_in_order() {
    let inc = vec!["/w/a".to_string(), "/w/b".to_string(), "/w/c".to_string()];
    let exc = vec!["/w/b".to_string(), "/w/z".to_string()];
    assert_eq!(subtract_excluded(&inc, &exc), vec!["/w/a".to_string(), "/w/c".to_string()]);
}

#[test]
fn new_manifest_tier_follows_directory_layout() {
    let comps = |v: &[&str]| v.iter().map(|s| s.to_string()).collect::<Vec<String>>();
    assert_eq!(detect_config_type_from_path(&comps(&["home", "nexus", "x"]), true, false), MagnetConfigType::Nexus);
    assert_eq!(detect_config_type_from_path(&comps(&["home", "proj"]), false, true), MagnetConfigType::Nexus);
    assert_eq!(detect_config_type_from_path(&comps(&["proj", "crates", "a"]), false, true), MagnetConfigType::Workspace);
    assert_eq!(detect_config_type_from_path(&comps(&["home", "proj"]), false, false), MagnetConfigType::Workspace);
    assert_eq!(detect_config_type_from_path(&comps(&["proj", "crates", "a"]), true, false), MagnetConfigType::Package);
    assert_eq!(detect_config_type_from_path(&comps(&["home", "proj"]), true, false), MagnetConfigType::Package);
}

#[test]
fn submodule_paths_are_second_words() {
    let out = "submodule.a.path libs/a\nsubmodule.b.path libs/b\n\nbroken\n";
    assert_eq!(submodule::list(out), vec!["libs/a".to_string(), "libs/b".to_string()]);
    assert_eq!(
        submodule::update(&"libs/a".to_string(), true),
        vec!["submodule", "update", "--init", "--remote", "libs/a"]
    );
    assert_eq!(submodule::update(&"libs/a".to_string(), false), vec!["submodule", "update", "--init", "libs/a"]);
}

#[test]
fn dependency_description_lists_present_fields() {
    let d = DependencyModel {
        version: Some("1.0".to_string()),
        nexus: Some(true),
        features: Some(vec!["a".to_string(), "b".to_string()]),
        custom: vec![("lib".to_string(), "true".to_string())],
        ..DependencyModel::default()
    };
    assert_eq!(
        d.describe(),
        "version = \"1.0\", nexus = true, features = [\"a\", \"b\"], custom = { lib = true, }, }"
    );
    assert_eq!(DependencyModel::default().describe(), "}");
    assert!(!d.workspace() && d.nexus() && d.default_features() && !d.optional());
    assert_eq!(d.features(), vec!["a".to_string(), "b".to_string()]);
}

#[test]
fn workspace_tree_lines() {
    let mut t = DependencyTable::new();
    t.insert("x".to_string(), DependencyModel::from_version("1".to_string()));
    let a = PackageModel { name: "a".to_string(), root_path: "/w/a".to_string(), dependencies: t, ..PackageModel::default() };
    let b = PackageModel { name: "b".to_string(), root_path: "/w/b".to_string(), ..PackageModel::default() };
    let w = WorkspaceModel { name: "w".to_string(), root_path: "/w".to_string(), ..WorkspaceModel::default() };
    let lines = tree(&ManifestTree::Workspace(WorkspaceTree { workspace: w, packages: vec![a, b] }));
    assert_eq!(
        lines,
        vec![
            " 🏢 Workspace: w (/w)".to_string(),
            "    ├──  📦 Package: a (/w/a)".to_string(),
            "    │   └──  📄x = version = \"1\", }".to_string(),
            "    └──  📦 Package: b (/w/b)".to_string(),
        ]
    );
}

#[test]
fn log_level_from_flag_count() {
    assert_eq!(LogLevel::from_verbosity(0), LogLevel::Info);
    assert_eq!(LogLevel::from_verbosity(1), LogLevel::Debug);
    assert_eq!(LogLevel::from_verbosity(7), LogLevel::Trace);
}

#[test]
fn node_display_names() {
    let mut c = ManifestConfig::new();
    assert_eq!(c.get_node_display_name(&".".to_string()), "./");
    assert_eq!(c.get_node_display_name(&"/a/dir".to_string()), "dir");
    c.package = Some(PackageConfig { name: "pkg".to_string(), ..PackageConfig::default() });
    assert_eq!(c.get_node_display_name(&"/a/dir".to_string()), "pkg");
    c.nexus = Some(NexusConfig::default());
    assert_eq!(c.get_node_display_name(&"/a/dir".to_string()), "pkg (dir)");
}

#[test]
fn declaration_descriptions() {
    let simple = magnet::config::DependencyConfig::Simple("1.0".to_string());
    assert_eq!(simple.describe(), "\"1.0\"");
    let full = magnet::config::DependencyConfig::Detailed(magnet::config::DetailedDependencyConfig {
        path: Some("../x".to_string()),
        optional: Some(false),
        ..Default::default()
    });
    assert_eq!(full.describe(), "path = \"../x\", optional = false, }");
}
