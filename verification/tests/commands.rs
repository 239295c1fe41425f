use jabberwok::commands::{
    already_granted_note, check_daemon_permissions, downloaded_note, extract_config_arg,
    launch_agent_status_line, model_path_for_run, not_ready_message, requested_note,
    resolve_download_model_name, resolve_models_dir, select_device_report, show_tutorial,
    start_plan, uses_fallback_prefs, StartPlan,
};
use jabberwok::config::models::{ModelConfig, ModelEntry};
use jabberwok::config::schema::{DevicePrefs, DevicesConfig};
use jabberwok::setup::{evaluate_readiness, ReadinessProbe};

#[test]
fn extract_config_arg_supports_split_flag() {
    let args = vec![
        "jabberwok".to_string(),
        "daemon".to_string(),
        "--config".to_string(),
        "/tmp/jabberwok.toml".to_string(),
    ];
    assert_eq!(extract_config_arg(&args).as_deref(), Some("/tmp/jabberwok.toml"));
}

#[test]
fn extract_config_arg_supports_equals_syntax() {
    let args = vec![
        "jabberwok".to_string(),
        "daemon".to_string(),
        "--config=/tmp/jabberwok.toml".to_string(),
    ];
    assert_eq!(extract_config_arg(&args).as_deref(), Some("/tmp/jabberwok.toml"));
}

#[test]
fn extract_config_arg_without_value_or_flag() {
    let args = vec!["jabberwok".to_string(), "--config".to_string()];
    assert_eq!(extract_config_arg(&args), None);
    let args = vec!["jabberwok".to_string(), "doctor".to_string()];
    assert_eq!(extract_config_arg(&args), None);
}

#[test]
fn download_model_name_and_dir_defaults() {
    assert_eq!(resolve_download_model_name(Some("a".to_string()), Some("b".to_string())), "a");
    assert_eq!(resolve_download_model_name(None, Some("b".to_string())), "b");
    assert_eq!(resolve_download_model_name(None, None), "parakeet-v3");
    assert_eq!(resolve_models_dir("/x/config/j.toml", None), "/x/models");
    assert_eq!(resolve_models_dir("/x/config/j.toml", Some("/d".to_string())), "/d");
}

fn installed_catalog() -> ModelConfig {
    let mut c = ModelConfig::default();
    c.models.push(ModelEntry {
        name: "m".to_string(),
        url: "https://x/m.bin".to_string(),
        sha256: None,
        path: Some("/models/m".to_string()),
    });
    c.default = Some("m".to_string());
    c
}

#[test]
fn start_plan_and_permissions() {
    let c = installed_catalog();
    let probe = ReadinessProbe {
        model_dir_writable: true,
        model_dir_enough_space: true,
        model_dir_free_bytes: None,
        default_model_exists: true,
        microphone_permission_granted: true,
        accessibility_permission_granted: false,
    };
    let r = evaluate_readiness("/c.toml", Some(&c), &probe);
    assert_eq!(start_plan(&r, &c), StartPlan::Setup);
    assert_eq!(
        check_daemon_permissions(&r).unwrap_err(),
        "accessibility permission required. run `jabberwok permissions accessibility`"
    );
    let probe = ReadinessProbe { accessibility_permission_granted: true, ..probe };
    let r = evaluate_readiness("/c.toml", Some(&c), &probe);
    assert!(check_daemon_permissions(&r).is_ok());
    assert_eq!(start_plan(&r, &c), StartPlan::Start { model_path: "/models/m".to_string() });
    assert_eq!(model_path_for_run(None, &c).unwrap(), "/models/m");
    assert_eq!(model_path_for_run(Some("/x".to_string()), &c).unwrap(), "/x");
    assert_eq!(
        model_path_for_run(None, &ModelConfig::default()).unwrap_err(),
        "no default model; run `download-model` first or pass --model"
    );
    assert!(show_tutorial(false, false));
    assert!(!show_tutorial(false, true));
    assert!(show_tutorial(true, true));
}

#[test]
fn messages_printed_by_commands() {
    assert_eq!(
        select_device_report("mac", true, true, &Some("USB".to_string()), &None),
        vec![
            "[mac] Input device set to \"USB\"".to_string(),
            "[mac] Output device cleared \u{2014} using OS default".to_string(),
        ]
    );
    assert_eq!(
        select_device_report("mac", false, false, &None, &None),
        Vec::<String>::new()
    );
    assert_eq!(
        select_device_report("mac", true, false, &None, &None),
        vec!["[mac] Input device cleared \u{2014} using OS default".to_string()]
    );
    assert!(already_granted_note("microphone").starts_with("microphone permission is already granted.\nNote:"));
    assert!(requested_note("all").starts_with("Requested all permission flow."));
    assert_eq!(launch_agent_status_line(true), "Jabberwok LaunchAgent: installed");
    assert_eq!(launch_agent_status_line(false), "Jabberwok LaunchAgent: not installed");
    assert_eq!(downloaded_note("m", "/d/m"), "Downloaded m to /d/m");
    assert_eq!(
        not_ready_message("report"),
        "jabberwok is not ready to start. Run `jabberwok setup` first.\nreport"
    );
}

#[test]
fn list_devices_uses_default_entry_only_without_own() {
    let mut d = DevicesConfig::new();
    assert!(!uses_fallback_prefs(&d, "mac"));
    d.insert("default", DevicePrefs::default());
    assert!(uses_fallback_prefs(&d, "mac"));
    d.insert("mac", DevicePrefs::default());
    assert!(!uses_fallback_prefs(&d, "mac"));
}
