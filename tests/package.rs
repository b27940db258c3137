use noir_libs::manifest::{Dependency, Manifest, Package, PackageType};
use noir_libs::package::{
    include_in_package, is_valid_version, package, publishable_tarball, validate_name, validate_name_is_not_empty,
    NameRule, PackageError,
};

fn manifest(name: Option<&str>, version: Option<&str>, package_type: Option<PackageType>) -> Manifest {
    Manifest {
        package: Package {
            name: name.map(|s| s.to_string()),
            package_type,
            compiler_version: None,
            authors: None,
            version: version.map(|s| s.to_string()),
            description: None,
            license: None,
            keywords: None,
            documentation: None,
            repository: None,
        },
        dependencies: vec![("dep".to_string(), Dependency::Path { path: "deps/dep/1.0.0".to_string() })],
    }
}

#[test]
fn accepted_names() {
    assert_eq!(validate_name("serde"), Ok(()));
    assert_eq!(validate_name("my-crate"), Ok(()));
    assert_eq!(validate_name("valid123"), Ok(()));
    assert_eq!(validate_name(&"a".repeat(64)), Ok(()));
    assert_eq!(validate_name("My_Crate"), Ok(()));
}

#[test]
fn rejected_names() {
    assert_eq!(validate_name("nul"), Err(NameRule::Reserved));
    assert_eq!(validate_name("NUL"), Err(NameRule::Reserved));
    assert_eq!(validate_name("com7"), Err(NameRule::Reserved));
    assert_eq!(validate_name("Lpt1"), Err(NameRule::Reserved));
    assert_eq!(validate_name("-serde"), Err(NameRule::BadEdge));
    assert_eq!(validate_name("serde-"), Err(NameRule::BadEdge));
    assert_eq!(validate_name("serde--json"), Err(NameRule::ConsecutiveSeparators));
    assert_eq!(validate_name("serde-_json"), Err(NameRule::ConsecutiveSeparators));
    assert_eq!(validate_name("crate.lib"), Err(NameRule::InvalidCharacter));
    assert_eq!(validate_name(&"a".repeat(70)), Err(NameRule::TooLong));
    assert_eq!(validate_name(&"a".repeat(65)), Err(NameRule::TooLong));
    assert_eq!(validate_name(""), Err(NameRule::Empty));
}

#[test]
fn not_reserved_lookalikes() {
    assert_eq!(validate_name("com0"), Ok(()));
    assert_eq!(validate_name("com10"), Ok(()));
    assert_eq!(validate_name("console"), Ok(()));
}

#[test]
fn basic_validator_applies_full_rule() {
    for name in ["nul", "-serde", "serde-", "serde--json", "crate.lib"] {
        assert!(matches!(validate_name_is_not_empty(name), Err(PackageError::InvalidName(_, _))), "{}", name);
    }
    assert!(matches!(
        validate_name_is_not_empty(&"a".repeat(70)),
        Err(PackageError::InvalidName(_, NameRule::TooLong))
    ));
    assert!(validate_name_is_not_empty(&"a".repeat(64)).is_ok());
}

#[test]
fn version_validation() {
    assert!(is_valid_version("0.1.0"));
    assert!(!is_valid_version("0.1"));
    assert!(!is_valid_version("v1.0"));
    assert!(!is_valid_version(""));
}

#[test]
fn name_not_empty_check() {
    assert!(validate_name_is_not_empty("x").is_ok());
    assert!(validate_name_is_not_empty("serde").is_ok());
    assert!(matches!(
        validate_name_is_not_empty(" x "),
        Err(PackageError::InvalidName(_, NameRule::InvalidCharacter))
    ));
    match validate_name_is_not_empty(" \t") {
        Err(PackageError::EmptyName(n)) => assert_eq!(n, " \t"),
        other => panic!("unexpected {:?}", other),
    }
    assert!(validate_name_is_not_empty("").is_err());
}

#[test]
fn package_plan_for_cool_package() {
    let m = manifest(Some("my_cool_package"), Some("0.1.1"), Some(PackageType::Library));
    let plan = package(&m, "/work/tests/generated").unwrap();
    assert_eq!(plan.tarball.name, "my_cool_package");
    assert_eq!(plan.tarball.version, "0.1.1");
    assert_eq!(
        plan.tarball.tarball_path,
        "/work/tests/generated/my_cool_package_0.1.1/my_cool_package_0.1.1.tar.gz"
    );
    assert_eq!(plan.staging_root, "/work/tests/generated/my_cool_package_0.1.1");
    assert_eq!(plan.staging_dir, "/work/tests/generated/my_cool_package_0.1.1/my_cool_package_0.1.1");
    assert_eq!(plan.excluded_dirs, vec!["target", ".cargo", ".vscode", "my_cool_package_0.1.1"]);
    assert_eq!(plan.excluded_files, vec![".env"]);
}

#[test]
fn packaging_checks_type_then_version_then_name() {
    let e = package(&manifest(Some("x"), Some("1.0.0"), None), "/o").err().unwrap();
    assert!(matches!(e, PackageError::TypeNotSet));
    let e = package(&manifest(Some("x"), Some("bad"), Some(PackageType::Contract)), "/o").err().unwrap();
    assert!(matches!(e, PackageError::WrongType(PackageType::Contract)));
    assert!(e.message().contains("contract"));
    let e = package(&manifest(Some("-x"), Some("1.0"), Some(PackageType::Library)), "/o").err().unwrap();
    assert!(matches!(e, PackageError::InvalidVersion(_)));
    assert!(e.message().contains("1.0"));
    let e = package(&manifest(None, None, Some(PackageType::Library)), "/o").err().unwrap();
    assert!(matches!(e, PackageError::VersionNotSet));
    let e = package(&manifest(None, Some("1.0.0"), Some(PackageType::Library)), "/o").err().unwrap();
    assert!(matches!(e, PackageError::NameNotSet));
    let e = package(&manifest(Some("a..b"), Some("1.0.0"), Some(PackageType::Library)), "/o").err().unwrap();
    assert!(matches!(e, PackageError::InvalidName(_, NameRule::InvalidCharacter)));
    assert_eq!(
        e.message(),
        "package name a..b in Nargo.toml file is invalid: only ASCII letters, digits, '-' and '_' are allowed"
    );
}

#[test]
fn copy_filter() {
    let dirs: Vec<String> = vec!["target".into(), ".cargo".into(), ".vscode".into(), "p_1.0.0".into()];
    let files: Vec<String> = vec![".env".into()];
    let stage = "/proj/target/package/p_1.0.0/p_1.0.0";
    assert!(include_in_package("/proj/src/lib.nr", stage, &dirs, &files));
    assert!(include_in_package("/proj/.gitignore", stage, &dirs, &files));
    assert!(include_in_package("/proj/Nargo.toml", stage, &dirs, &files));
    assert!(!include_in_package("/proj/.env", stage, &dirs, &files));
    assert!(!include_in_package("/proj/target", stage, &dirs, &files));
    assert!(!include_in_package("/proj/.vscode", stage, &dirs, &files));
    assert!(!include_in_package(stage, stage, &dirs, &files));
    assert!(!include_in_package("/proj/target/package/p_1.0.0/p_1.0.0/x", stage, &dirs, &files));
    assert!(include_in_package("/proj/targets", stage, &dirs, &files));
}

#[test]
fn publish_expects_packaged_archive() {
    let m = manifest(Some("my_cool_package"), Some("0.1.1"), None);
    let t = publishable_tarball(&m, "/proj").unwrap();
    assert_eq!(t.tarball_path, "/proj/target/package/my_cool_package_0.1.1/my_cool_package_0.1.1.tar.gz");
    assert!(publishable_tarball(&manifest(Some("x"), Some("x"), None), "/proj").is_err());
}
