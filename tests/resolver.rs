use std::collections::HashMap;

use noir_libs::config::MANIFEST_FILE_NAME;
use noir_libs::manifest::{Dependency, Manifest, Package};
use noir_libs::ops::{add, begin_add, split_package_to_name_and_version, split_package_to_name_and_version_with_validation, FetchAll};
use noir_libs::manifest::ManifestDocument;
use noir_libs::resolver::Resolution;

const REGISTRY: &str = "http://localhost:3001/api/v1";

fn graph(edges: &[(&str, &[&str])]) -> HashMap<String, Vec<(String, String)>> {
    edges
        .iter()
        .map(|(n, deps)| (n.to_string(), deps.iter().map(|d| (d.to_string(), "1.0.0".to_string())).collect()))
        .collect()
}

fn drive(r: &mut Resolution, g: &HashMap<String, Vec<(String, String)>>) -> Vec<String> {
    let mut order = Vec::new();
    while let Some(step) = r.next_fetch() {
        order.push(step.package.name.clone());
        assert!(order.len() <= g.len(), "a package was fetched twice");
        let deps = g.get(&step.package.name).cloned().unwrap_or_default();
        r.record_fetched(&deps);
    }
    order
}

#[test]
fn cyclic_graph_resolves_each_package_once() {
    let g = graph(&[("a", &["b", "c"]), ("b", &["a", "c"]), ("c", &["b", "a"])]);
    let mut r = Resolution::store_package(REGISTRY, "/cache", "a", "1.0.0", false);
    let order = drive(&mut r, &g);
    assert_eq!(order, vec!["a", "b", "c"]);
    assert_eq!(r.outcome(), Some(Ok("/cache/a/1.0.0".to_string())));
}

#[test]
fn self_dependency_terminates() {
    let g = graph(&[("a", &["a"])]);
    let mut r = Resolution::store_package(REGISTRY, "/cache", "a", "1.0.0", false);
    assert_eq!(drive(&mut r, &g), vec!["a"]);
}

#[test]
fn depth_first_in_declared_order() {
    let g = graph(&[("root", &["x", "y"]), ("x", &["z"]), ("y", &[]), ("z", &[])]);
    let mut r = Resolution::store_package(REGISTRY, "/cache", "root", "1.0.0", false);
    assert_eq!(drive(&mut r, &g), vec!["root", "x", "z", "y"]);
}

#[test]
fn fetch_step_places_and_yanked_flag() {
    let r = Resolution::store_package(REGISTRY, "/cache", "note", "0.2.0", true);
    let step = r.next_fetch().unwrap();
    assert_eq!(step.request.url, "http://localhost:3001/api/v1/packages/note/0.2.0/download?fetchYanked=true");
    assert_eq!(step.archive_path, "/cache/note_0.2.0.archive");
    assert_eq!(step.extract_dir, "/cache/note/0.2.0");
    assert_eq!(step.manifest_path, format!("/cache/note/0.2.0/{}", MANIFEST_FILE_NAME));
}

#[test]
fn failure_stops_resolution() {
    let mut r = Resolution::store_package(REGISTRY, "/cache", "a", "1.0.0", false);
    assert!(r.next_fetch().is_some());
    r.record_failure("Problem extracting package".to_string());
    assert!(r.next_fetch().is_none());
    assert_eq!(r.outcome(), Some(Err("Problem extracting package".to_string())));
}

#[test]
fn failed_add_leaves_manifest_unchanged() {
    let text = "[dependencies]\nold = { path = \"deps/old/1.0.0\" }\n";
    let mut doc = ManifestDocument::parse(text).unwrap();
    let mut r = begin_add(REGISTRY, "/p/deps", "note", "0.2.0");
    r.next_fetch().unwrap();
    r.record_failure("Failed to download file: Received status code 404".to_string());
    assert!(add(&mut doc, &r, "/p").is_err());
    assert_eq!(doc.to_text(), text);
}

#[test]
fn successful_add_records_dependency() {
    let mut doc = ManifestDocument::parse("[dependencies]\n").unwrap();
    let mut r = begin_add(REGISTRY, "/p/deps", "note", "0.2.0");
    let step = r.next_fetch().unwrap();
    assert!(!step.request.url.contains("fetchYanked"));
    r.record_fetched(&vec![]);
    assert_eq!(add(&mut doc, &r, "/p"), Ok("0.2.0".to_string()));
    assert!(doc.to_text().contains("note = { path = \"deps/note/0.2.0\" }"));
}

fn manifest_with_paths(paths: &[&str]) -> Manifest {
    Manifest {
        package: Package {
            name: None,
            package_type: None,
            compiler_version: None,
            authors: None,
            version: None,
            description: None,
            license: None,
            keywords: None,
            documentation: None,
            repository: None,
        },
        dependencies: paths
            .iter()
            .enumerate()
            .map(|(i, p)| (format!("d{}", i), Dependency::Path { path: p.to_string() }))
            .collect(),
    }
}

#[test]
fn fetch_all_goes_on_after_a_failure() {
    let m = manifest_with_paths(&["c/a/1.0.0", "c/b/2.0.0", "c/c/3.0.0"]);
    let mut f = FetchAll::fetch_all(REGISTRY, "/cache", &m);
    let mut attempted = Vec::new();
    while let Some(step) = f.next_fetch() {
        assert!(step.request.url.ends_with("?fetchYanked=true"));
        attempted.push(step.package.name.clone());
        if step.package.name == "b" {
            f.record_failure("Failed to download file: Received status code 500".to_string());
        } else {
            f.record_fetched(&vec![]);
        }
    }
    assert_eq!(attempted, vec!["a", "b", "c"]);
    let reports = f.reports();
    assert_eq!(reports.len(), 3);
    assert_eq!(reports[0].result, Ok("/cache/a/1.0.0".to_string()));
    assert_eq!(reports[1].result, Err("Failed to download file: Received status code 500".to_string()));
    assert_eq!(reports[2].result, Ok("/cache/c/3.0.0".to_string()));
}

#[test]
fn fetch_all_skips_git_and_notes_unreadable_paths() {
    let mut m = manifest_with_paths(&["c/a/1.0.0", "bad"]);
    m.dependencies.push((
        "g".to_string(),
        Dependency::Git { git: "https://example.org/g".to_string(), tag: None, directory: None },
    ));
    let mut f = FetchAll::fetch_all(REGISTRY, "/cache", &m);
    assert_eq!(f.unreadable(), &vec!["d1".to_string()]);
    let step = f.next_fetch().unwrap();
    assert_eq!(step.package.name, "a");
    f.record_fetched(&vec![]);
    assert!(f.next_fetch().is_none());
}

#[test]
fn package_arguments() {
    assert_eq!(split_package_to_name_and_version("aztec@0.67.0"), ("aztec".to_string(), "0.67.0".to_string()));
    assert_eq!(split_package_to_name_and_version("aztec"), ("aztec".to_string(), "latest".to_string()));
    assert_eq!(split_package_to_name_and_version("a@b@c"), ("a".to_string(), "latest".to_string()));
    assert_eq!(
        split_package_to_name_and_version_with_validation("aztec@0.67.0"),
        Ok(("aztec".to_string(), "0.67.0".to_string()))
    );
    assert_eq!(
        split_package_to_name_and_version_with_validation("aztec"),
        Err("Please provide a package in a format <package-name>@<version>".to_string())
    );
    assert_eq!(
        split_package_to_name_and_version_with_validation("aztec@1.0"),
        Err("Package version 1.0 is incorrect. Assure correct semantic versioning value.".to_string())
    );
}
