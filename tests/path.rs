use noir_libs::path::{
    get_cache_storage, get_full_package_name, get_package_dir, get_package_filename, join, parent_of,
    relative_dependency_path, split_dependency_path, extract_version_from_path,
};

#[test]
fn test_get_full_package_name() {
    let result = get_full_package_name("aztec", "0.67.0");
    assert_eq!(result, "aztec_0.67.0");
}

#[test]
fn test_get_package_filename() {
    let result = get_package_filename("value_note", "0.67.0");
    assert_eq!(result, "value_note_0.67.0.archive");
}

#[test]
fn test_get_cache_storage() {
    let cache_root = "/home/user/.cache/noir-libs";
    let result = get_cache_storage(cache_root, "value_note", "0.67.0");
    assert_eq!(result, "/home/user/.cache/noir-libs/value_note_0.67.0.archive");
}

#[test]
fn test_get_package_dir() {
    let cache_root = "/home/user/.cache/noir-libs";
    let result = get_package_dir(cache_root, "value_note", "0.67.0");
    assert_eq!(result, "/home/user/.cache/noir-libs/value_note/0.67.0");
}

#[test]
fn join_adds_one_separator() {
    assert_eq!(join("a", "b"), "a/b");
    assert_eq!(join("a/", "b"), "a/b");
    assert_eq!(join("", "b"), "b");
    assert_eq!(join("a", "/b"), "/b");
}

#[test]
fn parent_walks_up_to_root() {
    assert_eq!(parent_of("/a/b"), Some("/a".to_string()));
    assert_eq!(parent_of("/a/b/"), Some("/a".to_string()));
    assert_eq!(parent_of("/a"), Some("/".to_string()));
    assert_eq!(parent_of("/"), None);
    assert_eq!(parent_of("a"), Some("".to_string()));
    assert_eq!(parent_of(""), None);
}

#[test]
fn dependency_path_is_relative_below_manifest_dir() {
    assert_eq!(relative_dependency_path("/p", "/p/deps/x/1.0.0"), "deps/x/1.0.0");
    assert_eq!(relative_dependency_path("/p/", "/p/deps/x/1.0.0"), "deps/x/1.0.0");
    assert_eq!(relative_dependency_path("/q", "/p/deps/x/1.0.0"), "/p/deps/x/1.0.0");
    assert_eq!(relative_dependency_path("/p/de", "/p/deps/x/1.0.0"), "/p/deps/x/1.0.0");
}

#[test]
fn dependency_path_identity() {
    assert_eq!(
        split_dependency_path("../../my_package/0.1.0"),
        Some(("my_package".to_string(), "0.1.0".to_string()))
    );
    assert_eq!(
        split_dependency_path("../../my_package/0.1.0/"),
        Some(("my_package".to_string(), "0.1.0".to_string()))
    );
    assert_eq!(split_dependency_path("0.1.0"), None);
    assert_eq!(split_dependency_path("pkg/"), None);
}

#[test]
fn version_from_path() {
    assert_eq!(extract_version_from_path("../../my_package/0.1.0"), Some("0.1.0".to_string()));
    assert_eq!(extract_version_from_path("0.1.0"), Some("0.1.0".to_string()));
    assert_eq!(extract_version_from_path(""), None);
}
