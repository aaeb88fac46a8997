use siori::version::{
    extract_package_json_version, extract_plain_version, extract_toml_version, extract_version,
    extract_with_pattern, generate_tag_name, is_valid_version, update_version_content, VersionFile,
};

#[test]
fn test_generate_tag_name() {
    assert_eq!(generate_tag_name("0.1.6", "v{version}"), "v0.1.6");
    assert_eq!(generate_tag_name("1.0.0-beta.1", "v{version}"), "v1.0.0-beta.1");
    assert_eq!(generate_tag_name("0.1.6", "{version}"), "0.1.6");
}

#[test]
fn test_is_valid_version() {
    assert!(is_valid_version("0.1.6"));
    assert!(is_valid_version("1.0.0-beta.1"));
    assert!(is_valid_version("10.20.30"));
    assert!(!is_valid_version("v0.1.6")); // v prefix is invalid
    assert!(!is_valid_version("abc"));
    assert!(!is_valid_version(""));
}

#[test]
fn test_update_version_content() {
    let content = r#"version = "0.1.5""#;
    let updated = update_version_content(content, r#"version = "{version}""#, "0.1.6");
    assert_eq!(updated, r#"version = "0.1.6""#);
}

#[test]
fn test_update_version_content_first_match_only() {
    let content = "version = \"0.1.5\"\ndependency = \"x\"\nversion = \"0.9.9\"\n";
    let updated = update_version_content(content, "version = \"{version}\"", "0.2.0");
    assert_eq!(updated, "version = \"0.2.0\"\ndependency = \"x\"\nversion = \"0.9.9\"\n");
}

#[test]
fn test_update_version_content_no_match() {
    let content = "nothing to see";
    let updated = update_version_content(content, "version = \"{version}\"", "0.2.0");
    assert_eq!(updated, content);
}

#[test]
fn test_extract_toml_version() {
    let content = r#"
[package]
name = "siori"
version = "0.1.5"
"#;
    assert_eq!(extract_toml_version(content), Some("0.1.5".to_string()));
}

#[test]
fn test_extract_toml_version_indented_and_spaced() {
    assert_eq!(
        extract_toml_version("  version   =   \"2.0.0-rc.1\"  \n"),
        Some("2.0.0-rc.1".to_string())
    );
    assert_eq!(extract_toml_version("ver = \"1.0.0\""), None);
}

#[test]
fn test_extract_package_json_version() {
    let content = r#"{"name": "app", "version": "1.2.3"}"#;
    assert_eq!(extract_package_json_version(content), Some("1.2.3".to_string()));
}

#[test]
fn test_extract_plain_version() {
    assert_eq!(extract_plain_version("  1.2.3\n"), Some("1.2.3".to_string()));
    assert_eq!(extract_plain_version("not a version"), None);
}

#[test]
fn test_extract_version_dispatch() {
    assert_eq!(
        extract_version("version = \"3.1.4\"", "Cargo.toml"),
        Some("3.1.4".to_string())
    );
    assert_eq!(
        extract_version("version = \"3.1.4\"", "pyproject.toml"),
        Some("3.1.4".to_string())
    );
    assert_eq!(
        extract_version("{\"version\": \"3.1.4\"}", "package.json"),
        Some("3.1.4".to_string())
    );
    assert_eq!(extract_version("3.1.4", "VERSION"), Some("3.1.4".to_string()));
    assert_eq!(extract_version("version = \"3.1.4\"", "unknown.txt"), None);
}

#[test]
fn test_extract_with_pattern() {
    assert_eq!(
        extract_with_pattern("app 1.2.3-rc.1;", "app {version};"),
        Some("1.2.3-rc.1".to_string())
    );
    assert_eq!(extract_with_pattern("app x.y.z;", "app {version};"), None);
    assert_eq!(extract_with_pattern("app 1.2.3;", "other {version};"), None);
}

#[test]
fn test_version_file_fields() {
    let f = VersionFile {
        path: "Cargo.toml".to_string(),
        current_version: "0.1.5".to_string(),
        pattern: "version = \"{version}\"".to_string(),
    };
    assert_eq!(f.path, "Cargo.toml");
    assert_eq!(f.current_version, "0.1.5");
    assert_eq!(f.pattern, "version = \"{version}\"");
}
