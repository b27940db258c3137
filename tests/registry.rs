use noir_libs::package::PackagedTarball;
use noir_libs::registry::{
    download_outcome, download_package_api, get_auth_header, get_latest_package_version_url, get_package_url,
    get_publish_package_url, get_yank_package_url, latest_version_from_reply, publish, publish_outcome, require_api_key,
    publish_result, status_text, yank, yank_result, HttpMethod, Reply,
};

const REGISTRY: &str = "http://localhost:3001/api/v1";
const HOME: &str = "http://localhost:3000";

fn tarball() -> PackagedTarball {
    PackagedTarball {
        tarball_path: "/tmp/test_package.tar.gz".to_string(),
        name: "test_package".to_string(),
        version: "1.0.0".to_string(),
    }
}

fn received(status: u16, body: &str) -> Reply {
    Reply::Received { status, body: body.to_string() }
}

#[test]
fn registry_urls() {
    assert_eq!(
        get_package_url(REGISTRY, "aztec", "0.67.0", false),
        "http://localhost:3001/api/v1/packages/aztec/0.67.0/download"
    );
    assert_eq!(
        get_package_url(REGISTRY, "aztec", "0.67.0", true),
        "http://localhost:3001/api/v1/packages/aztec/0.67.0/download?fetchYanked=true"
    );
    assert_eq!(
        get_latest_package_version_url(REGISTRY, "aztec"),
        "http://localhost:3001/api/v1/packages/aztec/versions/latest"
    );
    assert_eq!(
        get_publish_package_url(REGISTRY, "my_cool_package", "0.1.0"),
        "http://localhost:3001/api/v1/packages/my_cool_package/0.1.0/publish"
    );
    assert_eq!(
        get_yank_package_url(REGISTRY, "my_cool_package", "0.1.0"),
        "http://localhost:3001/api/v1/packages/my_cool_package/0.1.0/yank"
    );
    assert_eq!(get_auth_header("k3y"), "Bearer k3y");
}

#[test]
fn download_request_is_a_plain_get() {
    let q = download_package_api(REGISTRY, "aztec", "0.67.0", false);
    assert_eq!(q.method, HttpMethod::Get);
    assert!(q.authorization.is_none());
    assert!(q.upload.is_none());
}

#[test]
fn status_codes_in_decimal() {
    assert_eq!(status_text(0), "0");
    assert_eq!(status_text(7), "7");
    assert_eq!(status_text(404), "404");
    assert_eq!(status_text(500), "500");
    assert_eq!(status_text(65535), "65535");
}

#[test]
fn network_test_download_remote() {
    assert!(download_outcome(&received(201, "world")).is_ok());
    assert_eq!(
        download_outcome(&received(404, "")),
        Err("Failed to download file: Received status code 404".to_string())
    );
    assert_eq!(
        download_outcome(&Reply::Unreachable { cause: "connection refused".to_string() }),
        Err("connection refused".to_string())
    );
}

#[test]
fn network_test_get_latest_version() {
    let version = latest_version_from_reply(&received(200, r#"{"version": "1.2.3"}"#)).unwrap();
    assert_eq!(version, "1.2.3");
}

#[test]
fn network_test_get_latest_version_not_found() {
    let result = latest_version_from_reply(&received(404, ""));
    assert_eq!(result, Err("Unknown error".to_string()));
}

#[test]
fn latest_version_failure_carries_registry_message() {
    let result = latest_version_from_reply(&received(404, r#"{"message": "Package not found"}"#));
    assert_eq!(result, Err("Package not found".to_string()));
}

#[test]
fn latest_version_without_field_is_an_error() {
    assert!(latest_version_from_reply(&received(200, r#"{"latest_version": "1.2.3"}"#)).is_err());
}

#[test]
fn test_publish_package_success() {
    let result = publish_result(&tarball(), HOME, &received(200, ""));
    assert!(result.is_ok());
    let message = result.unwrap();
    assert!(message.contains("Successfully published package"));
    assert!(message.contains("test_package"));
    assert!(message.contains("1.0.0"));
    assert!(message.contains("http://localhost:3000/packages/test_package/1.0.0"));
}

#[test]
fn test_publish_package_bad_request_error() {
    let result = publish_result(&tarball(), HOME, &received(400, r#"{"message": "Version already exists"}"#));
    assert!(result.is_err());
    let e = result.err().unwrap();
    assert!(e.contains("Failed to upload package"));
    assert!(e.contains("Version already exists"));
}

#[test]
fn test_publish_package_server_error() {
    let result = publish_result(&tarball(), HOME, &received(500, "oops"));
    assert!(result.is_err());
    let e = result.err().unwrap();
    assert!(e.contains("Failed to upload package"));
    assert!(e.contains("500"));
}

#[test]
fn publish_outcome_client_error_without_message() {
    let result = publish_outcome("a", "1.0.0", HOME, 403, None);
    assert_eq!(result, Err("Failed to upload package: a 1.0.0. Error message: Unknown error".to_string()));
}

#[test]
fn publish_transport_failure_names_cause() {
    let result = publish_result(&tarball(), HOME, &Reply::Unreachable { cause: "dns".to_string() });
    assert_eq!(result, Err("Failed to upload package: test_package 1.0.0. Error: dns".to_string()));
}

#[test]
fn publish_request_carries_key_and_archive() {
    let q = publish(REGISTRY, HOME, Some("secret"), &tarball()).unwrap();
    assert_eq!(q.method, HttpMethod::Post);
    assert_eq!(q.url, "http://localhost:3001/api/v1/packages/test_package/1.0.0/publish");
    assert_eq!(q.authorization, Some("Bearer secret".to_string()));
    let upload = q.upload.unwrap();
    assert_eq!(upload.field, "file");
    assert_eq!(upload.file_name, "test_package_1.0.0");
    assert_eq!(upload.mime_type, "application/gzip");
    assert_eq!(upload.file_path, "/tmp/test_package.tar.gz");
}

#[test]
fn publish_without_key_makes_no_request() {
    let result = publish(REGISTRY, HOME, None, &tarball());
    let e = result.err().unwrap();
    assert!(e.contains("API KEY env variable not found"));
    assert!(e.contains("http://localhost:3000/dashboard"));
}

#[test]
fn yank_without_key_makes_no_request() {
    let result = yank(REGISTRY, HOME, "aztec", "0.67.0", None);
    let e = result.err().unwrap();
    assert!(e.starts_with("Cannot yank a package."));
}

#[test]
fn yank_with_key_is_a_put() {
    let q = yank(REGISTRY, HOME, "aztec", "0.67.0", Some("k")).unwrap();
    assert_eq!(q.method, HttpMethod::Put);
    assert_eq!(q.url, "http://localhost:3001/api/v1/packages/aztec/0.67.0/yank");
    assert_eq!(q.authorization, Some("Bearer k".to_string()));
}

#[test]
fn yank_replies() {
    assert!(yank_result("aztec", "0.67.0", &received(200, "")).is_ok());
    assert_eq!(
        yank_result("aztec", "0.67.0", &received(401, r#"{"message": "Not the owner"}"#)),
        Err("Failed to yank a package: aztec 0.67.0. Error message: Not the owner".to_string())
    );
    assert_eq!(
        yank_result("aztec", "0.67.0", &received(502, "")),
        Err("Failed to yank a package: aztec 0.67.0. Server status: 502".to_string())
    );
}

#[test]
fn api_key_is_required_first() {
    assert_eq!(require_api_key("publish", HOME, Some("k")), Ok("k".to_string()));
    let e = require_api_key("publish", HOME, None).err().unwrap();
    assert!(e.starts_with("Cannot publish a package. API KEY env variable not found."));
}
