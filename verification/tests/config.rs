use jabberwok::config::models::{catalog_entry, is_tar_gz, name_from_url, ModelConfig, ModelEntry};
use jabberwok::config::paths::{
    bundled_resources_dir, config_file, is_ignored_packaged_file, logs_dir, macos_app_support_dir,
    LocationEnv,
};
use jabberwok::config::schema::{JabberwokConfig, LoggingConfig};
use jabberwok::models::{download_entry, DownloadError};
use jabberwok::xtask::package::Platform;

fn entry(name: &str, url: &str, sha: Option<&str>, path: Option<&str>) -> ModelEntry {
    ModelEntry {
        name: name.to_string(),
        url: url.to_string(),
        sha256: sha.map(|s| s.to_string()),
        path: path.map(|s| s.to_string()),
    }
}

#[test]
fn logging_config_defaults_to_jabberwok_info_and_global_warn() {
    let config = LoggingConfig::default();
    assert_eq!(config.filter_spec(), "warn,jabberwok=info");
}

#[test]
fn logging_filter_spec_ignores_blank_targets() {
    let config = LoggingConfig {
        level: "info".to_string(),
        targets: vec!["jabberwok=debug".to_string(), "   ".to_string()],
    };
    assert_eq!(config.filter_spec(), "info,jabberwok=debug");
}

#[test]
fn name_from_plain_url() {
    assert_eq!(name_from_url("https://example.com/ggml-base.en.bin").unwrap(), "ggml-base.en.bin");
}

#[test]
fn name_from_tar_gz_url_strips_suffix() {
    assert_eq!(
        name_from_url("https://blob.handy.computer/parakeet-v3-int8.tar.gz").unwrap(),
        "parakeet-v3-int8"
    );
}

#[test]
fn name_from_tgz_url_strips_suffix() {
    assert_eq!(name_from_url("https://example.com/model.tgz").unwrap(), "model");
}

#[test]
fn name_from_url_strips_query_string() {
    assert_eq!(name_from_url("https://example.com/model.bin?token=abc").unwrap(), "model.bin");
}

#[test]
fn is_tar_gz_detects_tar_gz() {
    assert!(is_tar_gz("https://example.com/model.tar.gz"));
    assert!(is_tar_gz("https://example.com/model.tgz"));
    assert!(!is_tar_gz("https://example.com/model.bin"));
    assert!(
        is_tar_gz("https://example.com/model.tar.gz?foo=bar"),
        "query string does not affect detection"
    );
}

#[test]
fn default_model_path_returns_none_when_empty() {
    let config = ModelConfig::default();
    assert!(config.default_model_path().is_none());
}

#[test]
fn default_model_path_returns_none_when_not_installed() {
    let mut config = ModelConfig::default();
    config.models.push(entry("parakeet-v3", "https://example.com/model.tar.gz", Some("abc"), None));
    config.default = Some("parakeet-v3".to_string());
    assert!(config.default_model_path().is_none());
}

#[test]
fn default_model_path_returns_some_when_installed() {
    let mut config = ModelConfig::default();
    config.models.push(entry("test", "https://example.com/model.bin", Some("abc"), Some("/models/test")));
    config.default = Some("test".to_string());
    assert_eq!(config.default_model_path().map(|p| p.as_str()), Some("/models/test"));
}

#[test]
fn get_finds_model_by_name() {
    let mut config = ModelConfig::default();
    config.models.push(entry("alpha", "https://example.com/a.bin", None, None));
    assert!(config.get("alpha").is_some());
    assert!(config.get("beta").is_none());
}

#[test]
fn catalog_entry_found() {
    let mut config = ModelConfig::default();
    config.models.push(entry("test-model", "https://example.com/model.bin", Some("abc"), None));
    let e = catalog_entry(&config, "test-model").unwrap();
    assert_eq!(e.name, "test-model");
    assert_eq!(e.url, "https://example.com/model.bin");
}

#[test]
fn catalog_entry_not_found_lists_available() {
    let mut config = ModelConfig::default();
    config.models.push(entry("model-a", "https://example.com/a.bin", Some("abc"), None));
    let err = catalog_entry(&config, "nonexistent").unwrap_err();
    let msg = err.message();
    assert!(msg.contains("unknown model"), "message was: {msg}");
    assert!(msg.contains("model-a"), "should list available: {msg}");
}

#[test]
fn download_model_unknown_name_returns_error() {
    let config = ModelConfig::default();
    let err = download_entry(&config, "no-such-model").unwrap_err();
    assert!(err.message().contains("unknown model"));
}

#[test]
fn download_entry_rejects_empty_name() {
    let config = ModelConfig::default();
    let err = download_entry(&config, "").unwrap_err();
    assert!(matches!(err, DownloadError::EmptyName));
    assert_eq!(err.message(), "model name must not be empty");
}

#[test]
fn register_download_sets_path_and_default() {
    let mut config = ModelConfig::default();
    config.models.push(entry("a", "https://x/a.bin", None, None));
    config.register_download("a", "https://x/a.bin", &None, "/m/a");
    assert_eq!(config.default.as_deref(), Some("a"));
    assert_eq!(config.default_model_path().map(|p| p.as_str()), Some("/m/a"));
    assert_eq!(config.models.len(), 1);
    config.register_download("b", "https://x/b.tgz", &Some("ff".to_string()), "/m/b");
    assert_eq!(config.models.len(), 2);
    assert_eq!(config.default_model_path().map(|p| p.as_str()), Some("/m/b"));
}

#[test]
fn ignored_packaged_files_skip_appledouble_entries() {
    assert!(is_ignored_packaged_file("._config.json"));
    assert!(!is_ignored_packaged_file("config.json"));
}

#[test]
fn bundle_resources_found_only_inside_app_bundle() {
    assert_eq!(
        bundled_resources_dir("/Applications/Jabberwok.app/Contents/MacOS/jabberwok").as_deref(),
        Some("/Applications/Jabberwok.app/Contents/Resources")
    );
    assert_eq!(bundled_resources_dir("/usr/local/bin/jabberwok"), None);
    assert_eq!(bundled_resources_dir("/tmp/Jabberwok/Contents/MacOS/jabberwok"), None);
}

fn env(home: Option<&str>, appdata: Option<&str>, xdg_config: Option<&str>, xdg_state: Option<&str>) -> LocationEnv {
    LocationEnv {
        home: home.map(|s| s.to_string()),
        appdata: appdata.map(|s| s.to_string()),
        xdg_config_home: xdg_config.map(|s| s.to_string()),
        xdg_state_home: xdg_state.map(|s| s.to_string()),
    }
}

#[test]
fn platform_locations() {
    let e = env(Some("/Users/a"), None, None, None);
    assert_eq!(
        config_file(Platform::Macos, &e).unwrap(),
        "/Users/a/Library/Application Support/jabberwok/config/jabberwok.toml"
    );
    assert_eq!(logs_dir(Platform::Macos, &e).unwrap(), "/Users/a/Library/Logs/jabberwok");
    assert_eq!(config_file(Platform::Linux, &e).unwrap(), "/Users/a/.config/jabberwok/config/jabberwok.toml");
    assert_eq!(logs_dir(Platform::Linux, &e).unwrap(), "/Users/a/.local/state/jabberwok/logs");
    assert_eq!(config_file(Platform::Windows, &e).unwrap_err(), "APPDATA is not set");
    let l = env(None, None, Some("/x"), Some("/s"));
    assert_eq!(config_file(Platform::Linux, &l).unwrap(), "/x/jabberwok/config/jabberwok.toml");
    assert_eq!(logs_dir(Platform::Linux, &l).unwrap(), "/s/jabberwok/logs");
    assert_eq!(config_file(Platform::Macos, &l).unwrap_err(), "HOME is not set");
}

fn home_env(home: &str) -> LocationEnv {
    LocationEnv {
        home: Some(home.to_string()),
        appdata: Some(home.to_string()),
        xdg_config_home: None,
        xdg_state_home: None,
    }
}

#[test]
fn logs_dir_ends_with_jabberwok() {
    for platform in [Platform::Macos, Platform::Linux, Platform::Windows] {
        let dir = logs_dir(platform, &home_env("/Users/me")).expect("logs_dir should succeed");
        assert!(
            std::path::Path::new(&dir).components().any(|c| c.as_os_str() == "jabberwok"),
            "logs_dir should contain jabberwok component, got: {dir}"
        );
    }
}

#[test]
fn logs_dir_is_under_library_logs_on_macos() {
    let dir = logs_dir(Platform::Macos, &home_env("/Users/me")).expect("logs_dir should succeed");
    assert!(dir.contains("Library/Logs"), "macOS logs_dir should be under Library/Logs, got: {dir}");
}

#[test]
fn bundled_resources_dir_returns_none_outside_app_bundle() {
    let result = bundled_resources_dir("/Users/me/code/jabberwok/target/debug/jabberwok");
    assert!(result.is_none(), "expected None outside an app bundle, got: {result:?}");
}

#[test]
fn macos_app_support_dir_contains_expected_components() {
    let dir = macos_app_support_dir(&Some("/Users/me".to_string())).expect("should succeed with HOME set");
    assert!(dir.contains("Application Support"), "should be under Application Support, got: {dir}");
    assert!(dir.contains("jabberwok"), "should end with jabberwok, got: {dir}");
    assert_eq!(macos_app_support_dir(&None).unwrap_err(), "HOME is not set");
}

#[test]
fn model_config_roundtrip() {
    let mut config = ModelConfig::default();
    config.models.push(entry(
        "parakeet-v3",
        "https://blob.handy.computer/parakeet-v3-int8.tar.gz",
        Some("abc"),
        Some("models/parakeet-v3"),
    ));
    config.default = Some("parakeet-v3".to_string());
    let mut file = JabberwokConfig::default();
    config.save(&mut file);

    let loaded = ModelConfig::load(&file);
    assert_eq!(loaded.default.as_deref(), Some("parakeet-v3"));
    assert_eq!(loaded.models.len(), 1);
    assert_eq!(loaded.models[0].name, "parakeet-v3");
    assert_eq!(loaded.models[0].path.as_deref(), Some("models/parakeet-v3"));
    assert_eq!(loaded.models[0].sha256.as_deref(), Some("abc"));
}

#[test]
fn model_config_load_missing_returns_default() {
    let config = ModelConfig::load(&JabberwokConfig::default());
    assert!(config.default.is_none());
    assert!(config.models.is_empty());
}
