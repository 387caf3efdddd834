use moraya_core::errors::ErrorKind;
use moraya_core::files_rules::is_listed_entry;
use moraya_core::manifest::{
    is_allowed_permission, is_manifest_entry_name, is_safe_relative_path, platform_key,
    validate_manifest, ManifestIssue, PluginManifest,
};
use moraya_core::paths::is_allowed_path;
use moraya_core::validate::{build_child_env, is_safe_env_var, validate_command};

#[test]
fn command_simple_names_pass() {
    assert_eq!(validate_command("node"), Ok(()));
    assert_eq!(validate_command("my-server_1.0"), Ok(()));
    assert_eq!(validate_command("python3"), Ok(()));
}

#[test]
fn command_empty_rejected() {
    assert_eq!(validate_command(""), Err(ErrorKind::InvalidCommand));
}

#[test]
fn command_paths_and_metacharacters_rejected() {
    assert_eq!(validate_command("bin/sh"), Err(ErrorKind::InvalidCommand));
    assert_eq!(validate_command("rm -rf"), Err(ErrorKind::InvalidCommand));
    assert_eq!(validate_command("a;b"), Err(ErrorKind::InvalidCommand));
    assert_eq!(validate_command("..\\cmd"), Err(ErrorKind::InvalidCommand));
    assert_eq!(validate_command("$(x)"), Err(ErrorKind::InvalidCommand));
}

#[test]
fn env_blocked_prefixes() {
    assert!(!is_safe_env_var("LD_PRELOAD"));
    assert!(!is_safe_env_var("LD_PRELOAD_EXTRA"));
    assert!(!is_safe_env_var("LD_LIBRARY_PATH"));
    assert!(!is_safe_env_var("DYLD_INSERT_LIBRARIES"));
    assert!(!is_safe_env_var("DYLD_LIBRARY_PATH"));
    assert!(!is_safe_env_var("DYLD_FRAMEWORK_PATH"));
    assert!(!is_safe_env_var("npm_config_userconfig"));
    assert!(!is_safe_env_var("npm_lifecycle_event"));
    assert!(!is_safe_env_var("npm_package_name"));
    assert!(!is_safe_env_var("NPM_TOKEN"));
    assert!(!is_safe_env_var("PNPM_HOME"));
}

#[test]
fn env_ordinary_names_pass() {
    assert!(is_safe_env_var("PATH"));
    assert!(is_safe_env_var("HOME"));
    assert!(is_safe_env_var("NPMX"));
    assert!(is_safe_env_var("npm"));
    assert!(is_safe_env_var("API_KEY"));
}

#[test]
fn child_env_filters_and_appends_npm_userconfig() {
    let parent = vec![
        ("PATH".to_string(), "/usr/bin".to_string()),
        ("LD_PRELOAD".to_string(), "evil.so".to_string()),
    ];
    let overrides = vec![
        ("API_KEY".to_string(), "k".to_string()),
        ("DYLD_LIBRARY_PATH".to_string(), "/tmp".to_string()),
    ];
    let env = build_child_env(&parent, &overrides);
    let pairs: Vec<(&str, &str)> = env.iter().map(|p| (p.0.as_str(), p.1.as_str())).collect();
    assert_eq!(
        pairs,
        vec![
            ("PATH", "/usr/bin"),
            ("API_KEY", "k"),
            ("npm_config_userconfig", "/dev/null"),
        ]
    );
}

#[test]
fn relative_paths_checked_for_traversal() {
    assert!(is_safe_relative_path("bin/app"));
    assert!(is_safe_relative_path("plugin.json"));
    assert!(is_safe_relative_path(""));
    assert!(!is_safe_relative_path("../escape"));
    assert!(!is_safe_relative_path("a/../b"));
    assert!(!is_safe_relative_path("/absolute"));
    assert!(!is_safe_relative_path("\\windows"));
    assert!(!is_safe_relative_path("trailing.."));
}

#[test]
fn manifest_entry_names() {
    assert!(is_manifest_entry_name("plugin.json"));
    assert!(is_manifest_entry_name("my-plugin/plugin.json"));
    assert!(is_manifest_entry_name("a/b/plugin.json"));
    assert!(!is_manifest_entry_name("xplugin.json"));
    assert!(!is_manifest_entry_name("plugin.json5"));
    assert!(!is_manifest_entry_name("other.json"));
}

#[test]
fn permission_whitelist() {
    assert!(is_allowed_permission("editor:read"));
    assert!(is_allowed_permission("net:external"));
    assert!(!is_allowed_permission("fs:write"));
    assert!(!is_allowed_permission(""));
}

#[test]
fn platform_keys() {
    assert_eq!(platform_key("macos", "aarch64"), "darwin-aarch64");
    assert_eq!(platform_key("macos", "x86_64"), "darwin-x86_64");
    assert_eq!(platform_key("windows", "x86_64"), "win32");
    assert_eq!(platform_key("linux", "x86_64"), "linux-x86_64");
    assert_eq!(platform_key("freebsd", "x86_64"), "unknown");
}

fn sample_manifest() -> PluginManifest {
    PluginManifest {
        id: "my-plugin".to_string(),
        name: "My Plugin".to_string(),
        version: "1.0.0".to_string(),
        description: "d".to_string(),
        author: "a".to_string(),
        license: "MIT".to_string(),
        api_version: "1".to_string(),
        entry: vec![("linux-x86_64".to_string(), "bin/app".to_string())],
        protocol: "jsonrpc-stdio".to_string(),
        permissions: vec!["editor:read".to_string()],
        permission_reasons: vec![],
        sandbox_level: "strict".to_string(),
        homepage: None,
    }
}

#[test]
fn valid_manifest_has_no_issues() {
    let m = sample_manifest();
    let (errors, warnings) = validate_manifest(&m, "linux-x86_64");
    assert!(errors.is_empty());
    assert!(warnings.is_empty());
}

#[test]
fn manifest_bad_version_flagged() {
    let mut m = sample_manifest();
    m.version = "1.0".to_string();
    let (errors, _) = validate_manifest(&m, "linux-x86_64");
    assert_eq!(errors, vec![ManifestIssue::BadVersionFormat]);
    m.version = "1.2.x".to_string();
    let (errors, _) = validate_manifest(&m, "linux-x86_64");
    assert_eq!(errors, vec![ManifestIssue::BadVersionFormat]);
    m.version = "1.2.3.4".to_string();
    let (errors, _) = validate_manifest(&m, "linux-x86_64");
    assert_eq!(errors, vec![ManifestIssue::BadVersionFormat]);
}

#[test]
fn manifest_bad_id_flagged() {
    let mut m = sample_manifest();
    m.id = "Xy".to_string();
    let (errors, _) = validate_manifest(&m, "linux-x86_64");
    assert_eq!(errors, vec![ManifestIssue::BadIdFormat]);
    m.id = String::new();
    let (errors, _) = validate_manifest(&m, "linux-x86_64");
    assert_eq!(errors, vec![ManifestIssue::EmptyId]);
}

#[test]
fn manifest_unsafe_entry_flagged() {
    let mut m = sample_manifest();
    m.entry = vec![("linux-x86_64".to_string(), "../evil".to_string())];
    let (errors, _) = validate_manifest(&m, "linux-x86_64");
    assert_eq!(errors, vec![ManifestIssue::UnsafeEntryPath]);
}

#[test]
fn manifest_platform_not_covered_flagged() {
    let m = sample_manifest();
    let (errors, _) = validate_manifest(&m, "win32");
    assert_eq!(errors, vec![ManifestIssue::PlatformNotSupported]);
}

#[test]
fn manifest_unknown_permission_flagged() {
    let mut m = sample_manifest();
    m.permissions.push("fs:everything".to_string());
    let (errors, _) = validate_manifest(&m, "linux-x86_64");
    assert_eq!(errors, vec![ManifestIssue::UnknownPermission]);
}

#[test]
fn manifest_wrong_protocol_and_api_flagged() {
    let mut m = sample_manifest();
    m.protocol = "grpc".to_string();
    m.api_version = "2".to_string();
    let (errors, _) = validate_manifest(&m, "linux-x86_64");
    assert_eq!(
        errors,
        vec![
            ManifestIssue::UnsupportedApiVersion,
            ManifestIssue::UnsupportedProtocol,
        ]
    );
}

#[test]
fn manifest_system_sandbox_warns_without_net() {
    let mut m = sample_manifest();
    m.sandbox_level = "system".to_string();
    let (errors, warnings) = validate_manifest(&m, "linux-x86_64");
    assert!(errors.is_empty());
    assert_eq!(warnings, vec![ManifestIssue::SystemSandboxWithoutNet]);
    m.permissions.push("net:external".to_string());
    let (_, warnings) = validate_manifest(&m, "linux-x86_64");
    assert!(warnings.is_empty());
}

#[test]
fn allowed_path_rules() {
    assert!(is_allowed_path("/home/u/notes/a.md", "/home/u", "linux"));
    assert!(is_allowed_path("/media/usb/a.md", "/home/u", "linux"));
    assert!(is_allowed_path("/mnt/disk/a.md", "/home/u", "linux"));
    assert!(!is_allowed_path("/etc/passwd", "/home/u", "linux"));
    assert!(is_allowed_path("/Volumes/USB/a.md", "/Users/u", "macos"));
    assert!(!is_allowed_path("/media/usb/a.md", "/Users/u", "macos"));
    assert!(is_allowed_path("D:\\notes\\a.md", "C:\\Users\\u", "windows"));
    assert!(!is_allowed_path("C:\\Windows\\a.md", "C:\\Users\\u", "windows"));
    assert!(!is_allowed_path("c:\\Windows\\a.md", "C:\\Users\\u", "windows"));
}

#[test]
fn directory_listing_rule() {
    assert!(is_listed_entry("notes.md", false));
    assert!(is_listed_entry("doc.markdown", false));
    assert!(is_listed_entry("subdir", true));
    assert!(!is_listed_entry(".hidden", false));
    assert!(!is_listed_entry(".git", true));
    assert!(!is_listed_entry("node_modules", true));
    assert!(!is_listed_entry("target", true));
    assert!(!is_listed_entry("image.png", false));
    assert!(!is_listed_entry("md", false));
}
