use noir_libs::manifest::{try_find_manifest, ManifestDocument};
use noir_libs::ops::{add_dep_to_manifest, remove};

#[test]
fn manifest_test_write_package_dep() {
    let mut doc = ManifestDocument::parse("[dependencies]\n").unwrap();
    let package_name = "my_package";
    let path = "../../my_package/0.1.0";
    doc.write_package_dep(package_name, path).unwrap();
    let content = doc.to_text();
    assert!(content.contains("my_package"));
    assert!(content.contains(format!("path = \"{}\"", path).as_str()));
}

#[test]
fn test_write_package_dep_missing_deps_section() {
    let mut doc = ManifestDocument::parse("\n").unwrap();
    doc.write_package_dep("my_package", "../../my_package/0.1.0").unwrap();
    let content = doc.to_text();
    assert!(content.contains("[dependencies]"));
    assert!(content.contains("my_package"));
    assert!(content.contains("path = \"../../my_package/0.1.0\""));
}

#[test]
fn manifest_test_get_dependencies() {
    let doc = ManifestDocument::parse(
        "[dependencies]\nmy_package = { path = \"../../my_package/0.1.0\" }\n
            my_package2 = { path = \"../../my_package2/0.1.2\" }\n",
    )
    .unwrap();
    let dependencies = doc.get_dependencies();
    assert_eq!(dependencies.len(), 2);
    assert_eq!(dependencies[0].0, "my_package");
    assert_eq!(dependencies[0].1, "0.1.0");
    assert_eq!(dependencies[1].0, "my_package2");
    assert_eq!(dependencies[1].1, "0.1.2");
}

#[test]
fn manifest_test_remove_package() {
    let mut doc =
        ManifestDocument::parse("[dependencies]\nmy_package = { path = \"../../my_package/0.1.0\" }\n").unwrap();
    doc.remove_package("my_package");
    assert!(!doc.to_text().contains("my_package"));
}

#[test]
fn manifest_candidates_walk_up() {
    let candidates = try_find_manifest("/tmp/project/newdir");
    assert_eq!(
        candidates,
        vec![
            "/tmp/project/newdir/Nargo.toml".to_string(),
            "/tmp/project/Nargo.toml".to_string(),
            "/tmp/Nargo.toml".to_string(),
            "/Nargo.toml".to_string(),
        ]
    );
}

#[test]
fn git_dependencies_are_not_listed() {
    let doc = ManifestDocument::parse(
        "[dependencies]\naztec = { git = \"https://example.org/aztec\", tag = \"v1\" }\nnote = { path = \"deps/note/0.2.0\" }\n",
    )
    .unwrap();
    let dependencies = doc.get_dependencies();
    assert_eq!(dependencies, vec![("note".to_string(), "0.2.0".to_string())]);
}

#[test]
fn invalid_toml_is_rejected() {
    assert!(ManifestDocument::parse("[dependencies\n").is_err());
}

#[test]
fn dependencies_that_are_not_a_table_are_refused() {
    let mut doc = ManifestDocument::parse("dependencies = 3\n").unwrap();
    assert!(doc.write_package_dep("x", "p/x/1.0.0").is_err());
}

#[test]
fn add_records_cache_path_relative_to_manifest() {
    let mut doc = ManifestDocument::parse("[package]\nname = \"app\"\n").unwrap();
    add_dep_to_manifest(&mut doc, "/home/u/app", "/home/u/app/deps", "note", "0.2.0").unwrap();
    assert_eq!(doc.get_dependencies(), vec![("note".to_string(), "0.2.0".to_string())]);
    assert!(doc.to_text().contains("path = \"deps/note/0.2.0\""));
}

#[test]
fn remove_keeps_other_dependencies() {
    let mut doc = ManifestDocument::parse(
        "[dependencies]\na = { path = \"d/a/1.0.0\" }\nb = { path = \"d/b/2.0.0\" }\n",
    )
    .unwrap();
    remove(&mut doc, "a");
    assert_eq!(doc.get_dependencies(), vec![("b".to_string(), "2.0.0".to_string())]);
}

#[test]
fn package_table_survives_add_and_remove() {
    let text = "[package]\nname = \"app\"\ntype = \"lib\"\n\n[dependencies]\n";
    let mut doc = ManifestDocument::parse(text).unwrap();
    doc.write_package_dep("note", "deps/note/0.2.0").unwrap();
    remove(&mut doc, "note");
    assert!(doc.to_text().starts_with("[package]\nname = \"app\"\ntype = \"lib\"\n"));
}
