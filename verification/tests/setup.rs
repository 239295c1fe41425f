use jabberwok::config::models::{ModelConfig, ModelEntry};
use jabberwok::setup::{
    describe_reset_result, doctor_report, evaluate_readiness, format_bytes,
    permission_already_granted, permission_kind, permission_request_instructions,
    removal_message, request_permission, status_text, ReadinessProbe,
};
use jabberwok::state::{models_dir_for_config, LocalStatePaths, StartupState};

fn probe(writable: bool, space: bool, exists: bool, mic: bool, acc: bool) -> ReadinessProbe {
    ReadinessProbe {
        model_dir_writable: writable,
        model_dir_enough_space: space,
        model_dir_free_bytes: Some(5 * 1024 * 1024 * 1024),
        default_model_exists: exists,
        microphone_permission_granted: mic,
        accessibility_permission_granted: acc,
    }
}

fn catalog(path: Option<&str>) -> ModelConfig {
    let mut c = ModelConfig::default();
    c.models.push(ModelEntry {
        name: "parakeet-v3".to_string(),
        url: "https://example.com/p.tar.gz".to_string(),
        sha256: None,
        path: path.map(|p| p.to_string()),
    });
    c.default = Some("parakeet-v3".to_string());
    c
}

#[test]
fn format_bytes_examples() {
    assert_eq!(format_bytes(0), "0.0 MiB");
    assert_eq!(format_bytes(512 * 1024 * 1024), "512.0 MiB");
    assert_eq!(format_bytes(1024 * 1024 * 1024), "1.0 GiB");
    assert_eq!(format_bytes(1610612736), "1.5 GiB");
    assert_eq!(format_bytes(5 * 1024 * 1024 * 1024 / 4), "1.2 GiB");
    assert_eq!(format_bytes(1_500_000), "1.4 MiB");
    assert_eq!(format_bytes(u64::MAX), "17179869184.0 GiB");
}

#[test]
fn format_bytes_matches_float_formatting() {
    let cases: [u64; 9] = [
        1,
        52428,
        52429,
        1048575,
        104857600 + 52428,
        1073741823,
        1073741824 + 53687091,
        (1u64 << 53) + 3,
        (1u64 << 60) + 12345,
    ];
    for b in cases {
        let expected = if b >= 1 << 30 {
            format!("{:.1} GiB", b as f64 / (1u64 << 30) as f64)
        } else {
            format!("{:.1} MiB", b as f64 / (1u64 << 20) as f64)
        };
        assert_eq!(format_bytes(b), expected, "bytes {b}");
    }
}

#[test]
fn readiness_for_unparseable_config_needs_repair() {
    let r = evaluate_readiness("/c/jabberwok.toml", None, &probe(true, true, true, true, true));
    assert!(!r.parseable_config);
    assert_eq!(r.startup_state, StartupState::NeedsRepair);
    assert_eq!(
        r.repair_reason.as_deref(),
        Some("Existing config at /c/jabberwok.toml could not be parsed. Fix it or reset local data to continue.")
    );
    let report = doctor_report(r);
    assert!(report.text.starts_with("Jabberwok doctor\n\nConfig:         REPAIR  could not parse jabberwok.toml\n"));
}

#[test]
fn readiness_ready_when_everything_is_in_place() {
    let c = catalog(Some("/m/parakeet"));
    let r = evaluate_readiness("/c/j.toml", Some(&c), &probe(true, true, true, true, true));
    assert!(r.can_start_daemon);
    assert_eq!(r.startup_state, StartupState::Ready);
    assert_eq!(r.repair_reason, None);
    let report = doctor_report(r);
    assert_eq!(
        report.text,
        "Jabberwok doctor\n\nConfig:         OK\nModel:          OK      parakeet-v3 at /m/parakeet\nStorage:        OK writable, 5.0 GiB free\nMicrophone:     OK Granted\nAccessibility:  OK Granted\nStartup state:  READY\nDaemon ready:   YES\n\n"
    );
}

#[test]
fn readiness_reasons_in_order() {
    let c = catalog(Some("/m/parakeet"));
    let r = evaluate_readiness("/data/config/jabberwok.toml", Some(&c), &probe(false, false, true, true, true));
    assert_eq!(r.repair_reason.as_deref(), Some("The models directory at /data/models is not writable."));
    let r = evaluate_readiness("/c/j.toml", Some(&c), &probe(true, false, true, true, true));
    assert_eq!(r.startup_state, StartupState::NeedsRepair);
    let r = evaluate_readiness("/c/j.toml", Some(&ModelConfig::default()), &probe(true, true, true, true, true));
    assert_eq!(r.startup_state, StartupState::NeedsSetup);
    assert_eq!(r.repair_reason.as_deref(), Some("Choose and install a default model to finish setup."));
    let r = evaluate_readiness("/c/j.toml", Some(&c), &probe(true, true, false, true, true));
    assert_eq!(
        r.repair_reason.as_deref(),
        Some("Your existing Jabberwok data was found, but the default model `parakeet-v3` is missing at /m/parakeet. Re-download it to continue.")
    );
    let nc = catalog(None);
    let r = evaluate_readiness("/c/j.toml", Some(&nc), &probe(true, true, true, true, true));
    assert!(!r.model_installed);
    assert_eq!(
        r.repair_reason.as_deref(),
        Some("Your existing Jabberwok data was found, but the default model `parakeet-v3` has no install path. Re-download it to continue.")
    );
    let r = evaluate_readiness("/c/j.toml", Some(&c), &probe(true, true, true, false, true));
    assert_eq!(r.startup_state, StartupState::NeedsSetup);
    assert_eq!(r.repair_reason.as_deref(), Some("Finish the remaining permission steps to start Jabberwok."));
}

#[test]
fn doctor_report_lists_hints() {
    let c = catalog(Some("/m/parakeet"));
    let mut p = probe(false, false, false, false, false);
    p.model_dir_free_bytes = None;
    let r = evaluate_readiness("/data/config/jabberwok.toml", Some(&c), &p);
    let text = doctor_report(r).text;
    assert!(text.contains("Model:          MISSING parakeet-v3 expected at /m/parakeet\n"));
    assert!(text.contains("Storage:        MISSING model directory is not writable, unknown available\n"));
    assert!(text.contains("Microphone:     MISSING Not granted\n"));
    assert!(text.contains("Detail:         The models directory at /data/models is not writable.\n"));
    assert!(text.contains("Daemon ready:   NO\n\nHints:\n- Download the default model: jabberwok download-model parakeet-v3\n- Fix write access to the app support `models/` directory.\n- Free disk space before downloading the model.\n- Grant microphone permission: jabberwok permissions microphone\n- Grant accessibility permission: jabberwok permissions accessibility\n- Use `jabberwok reset` for a clean local reset.\n"));
}

#[test]
fn permission_targets() {
    assert_eq!(status_text(true), "Granted");
    assert_eq!(status_text(false), "Not granted");
    assert_eq!(permission_already_granted("all", true, false).unwrap(), false);
    assert_eq!(permission_already_granted("microphone", true, false).unwrap(), true);
    let err = permission_already_granted("camera", true, true).unwrap_err();
    assert_eq!(err.message(), "unknown permission target: camera");
    let req = request_permission("all").unwrap();
    assert!(req.request_microphone && req.open_accessibility_settings);
    let req = request_permission("accessibility").unwrap();
    assert!(!req.request_microphone && req.open_accessibility_settings);
    assert!(request_permission("x").is_err());
    assert_eq!(permission_kind("accessibility").unwrap(), "Accessibility");
}

#[test]
fn permission_instructions_mention_executables() {
    let t = permission_request_instructions("microphone", None, None).unwrap();
    assert_eq!(t, "Requested microphone permission flow.\nCurrent executable: <unknown>");
    let t = permission_request_instructions(
        "accessibility",
        Some("/bin/j".to_string()),
        Some("/opt/j".to_string()),
    )
    .unwrap();
    assert_eq!(
        t,
        "Opened Accessibility settings.\nmacOS does not allow Jabberwok to add or grant Accessibility permission automatically.\nCurrent executable: /bin/j\nLaunchAgent executable: /opt/j\nUse the + button in System Settings if needed, add the executable you actually run, and enable it."
    );
    let t = permission_request_instructions("all", Some("/bin/j".to_string()), Some("/bin/j".to_string())).unwrap();
    assert!(!t.contains("LaunchAgent executable"));
    assert!(t.starts_with("Requested microphone permission flow and opened Accessibility settings.\n"));
}

#[test]
fn removal_and_reset_texts() {
    let m = removal_message("microphone", "Microphone", true);
    assert!(m.starts_with("Cleared microphone state. This is a debug-only local reset and may still require a reboot.\nThis reset targets the bundled Jabberwok app identity. If the permission"));
    let m = removal_message("all", "All", false);
    assert!(m.contains("usually inherits All permission from your terminal app.\nOpen System Settings > Privacy & Security > All and toggle Terminal or WezTerm off"));
    let paths = LocalStatePaths::from_config_path("/a/b/config/jabberwok.toml", "/logs".to_string());
    assert_eq!(paths.config_dir, "/a/b/config");
    assert_eq!(paths.app_support_dir, "/a/b");
    assert_eq!(paths.models_dir, "/a/b/models");
    assert_eq!(paths.resettable_paths(), vec!["/a/b/config", "/a/b/models", "/logs"]);
    assert_eq!(
        describe_reset_result(&paths.config_file, &[]),
        "Reset Jabberwok local data.\nNo local config, models, or logs were present.\nNext launch will bootstrap fresh defaults from /a/b/config/jabberwok.toml."
    );
    assert_eq!(
        describe_reset_result(&paths.config_file, &["/a/b/config".to_string(), "/logs".to_string()]),
        "Reset Jabberwok local data.\nRemoved:\n- /a/b/config\n- /logs\nNext launch will bootstrap fresh defaults from /a/b/config/jabberwok.toml."
    );
}

#[test]
fn models_dir_sits_beside_config_dir() {
    assert_eq!(models_dir_for_config("/a/b/config/jabberwok.toml"), "/a/b/models");
    assert_eq!(models_dir_for_config("jabberwok.toml"), "models");
}
