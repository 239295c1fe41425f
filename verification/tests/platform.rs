use jabberwok::logs::{
    is_prune_candidate, prune_old_logs, retention_seconds, should_prune, LogFile, LOG_RETENTION_DAYS,
};
use jabberwok::menu::{device_menu_entries, menu_item_checked, MenuEntry};
use jabberwok::platform::{
    ensure_daemon_runtime_support, permission_services, RuntimeCapabilities,
};
use jabberwok::platform::{macos, windows};
use jabberwok::service::{
    bundle_identifier, gui_domain, homebrew_opt_executable, launch_agent_executable,
    launch_agent_path, render_launch_agent, service_target,
};
use jabberwok::transcribe::{model_not_found, transcription_plan, utterance_files, TranscriptionPlan};

#[test]
fn runtime_support_by_platform() {
    assert!(ensure_daemon_runtime_support("macos", macos::runtime_capabilities()).is_ok());
    assert_eq!(
        ensure_daemon_runtime_support("windows", windows::runtime_capabilities()).unwrap_err(),
        "windows daemon runtime is not implemented yet. Missing features: overlay, text injection, accessibility permission handling."
    );
    let none = RuntimeCapabilities {
        overlay: false,
        global_hotkey: false,
        text_injection: false,
        accessibility_permissions: false,
        sound_playback: false,
    };
    assert_eq!(none.missing_daemon_features().len(), 5);
    assert!(windows::accessibility_help().starts_with("Windows runtime support"));
    assert_eq!(windows::inject_text("x").unwrap_err(), windows::accessibility_help());
    assert!(!windows::has_microphone_permission());
    assert_eq!(windows::default_push_to_talk_key_label(), "Right Win");
    assert_eq!(macos::default_push_to_talk_key_label(), "Right Cmd");
    assert!(macos::ensure_accessibility_permission_for_daemon_startup(true).is_ok());
    assert_eq!(
        macos::ensure_accessibility_permission_for_daemon_startup(false).unwrap_err(),
        macos::accessibility_help()
    );
    assert_eq!(permission_services("All"), vec!["Accessibility", "Microphone"]);
    assert_eq!(permission_services("Microphone"), vec!["Microphone"]);
    assert!(permission_services("Camera").is_empty());
}

#[test]
fn log_pruning_decisions() {
    assert!(is_prune_candidate("jabberwok.log.2026-03-01"));
    assert!(!is_prune_candidate("jabberwok.log"));
    assert!(!is_prune_candidate("README"));
    assert!(!is_prune_candidate(".hidden"));
    assert!(is_prune_candidate("trailing."));
    assert!(should_prune("jabberwok.log.2026-03-01", true));
    assert!(!should_prune("jabberwok.log.2026-03-18", false));
    assert!(!should_prune("jabberwok.log", true));
    assert_eq!(retention_seconds(LOG_RETENTION_DAYS), 14 * 86400);
}

#[test]
fn device_menu_entries_and_checks() {
    let devices = vec!["A".to_string(), "B".to_string()];
    let entries = device_menu_entries(&devices, &Some("B".to_string()));
    assert_eq!(
        entries,
        vec![
            MenuEntry::Device { name: "A".to_string(), checked: false },
            MenuEntry::Device { name: "B".to_string(), checked: true },
            MenuEntry::Separator,
            MenuEntry::OsDefault { checked: false },
        ]
    );
    let entries = device_menu_entries(&devices, &None);
    assert_eq!(entries[3], MenuEntry::OsDefault { checked: true });
    assert!(menu_item_checked(&None, &None));
    assert!(!menu_item_checked(&Some("A".to_string()), &None));
    assert!(menu_item_checked(&Some("A".to_string()), &Some("A".to_string())));
}

#[test]
fn launch_agent_locations_and_contents() {
    assert_eq!(bundle_identifier(), "computer.handy.jabberwok");
    assert_eq!(
        launch_agent_path(&Some("/Users/a".to_string())).unwrap(),
        "/Users/a/Library/LaunchAgents/com.handy.jabberwok.plist"
    );
    assert_eq!(launch_agent_path(&None).unwrap_err(), "HOME is not set");
    assert_eq!(gui_domain(501), "gui/501");
    assert_eq!(service_target(501), "gui/501/computer.handy.jabberwok");
    assert_eq!(
        render_launch_agent("<a>__APP_EXECUTABLE__</a><b>__LOGS_DIR__/x __LOGS_DIR__</b>", "/bin/j", "/logs"),
        "<a>/bin/j</a><b>/logs/x /logs</b>"
    );
    assert_eq!(
        homebrew_opt_executable("/opt/homebrew/Cellar/jabberwok/0.1.0/bin/jabberwok").as_deref(),
        Some("/opt/homebrew/opt/jabberwok/bin/jabberwok")
    );
    assert_eq!(homebrew_opt_executable("/usr/local/bin/jabberwok"), None);
    assert_eq!(launch_agent_executable("/e".to_string(), Some("/o".to_string()), true), "/o");
    assert_eq!(launch_agent_executable("/e".to_string(), Some("/o".to_string()), false), "/e");
}

#[test]
fn transcription_choices() {
    assert_eq!(transcription_plan(false, true, 10), TranscriptionPlan::ModelMissing);
    assert_eq!(transcription_plan(true, true, 0), TranscriptionPlan::EmptyRecording);
    assert_eq!(transcription_plan(true, true, 10), TranscriptionPlan::Parakeet);
    assert_eq!(transcription_plan(true, false, 10), TranscriptionPlan::Whisper);
    assert_eq!(model_not_found("/m/x"), "model not found: /m/x");
    let (wav, txt, text) = utterance_files("utterances", "20260301T101010", "  hello world  ");
    assert_eq!(wav, "utterances/20260301T101010.wav");
    assert_eq!(txt, "utterances/20260301T101010.txt");
    assert_eq!(text, "hello world");
}

#[test]
fn prune_does_not_panic_on_missing_directory() {
    // A directory that does not exist lists no files.
    let listing: Vec<LogFile> = Vec::new();
    assert!(prune_old_logs(&listing).is_empty());
}

#[test]
fn prune_old_logs_noop_on_missing_directory() {
    let listing: Vec<LogFile> = Vec::new();
    assert!(prune_old_logs(&listing).is_empty());
    assert!(retention_seconds(LOG_RETENTION_DAYS) > 0);
}

#[test]
fn transcribe_file_nonexistent_model_returns_error() {
    assert_eq!(transcription_plan(false, false, 0), TranscriptionPlan::ModelMissing);
    let err = model_not_found("/tmp/ghost.bin");
    assert!(err.contains("model not found"), "unexpected error: {err}");
}

#[test]
fn transcribe_file_empty_wav_returns_empty_text() {
    // An empty recording is answered with an empty transcript, before any
    // model is loaded.
    assert_eq!(transcription_plan(true, true, 0), TranscriptionPlan::EmptyRecording);
}

#[test]
fn transcribe_file_empty_dir_returns_parakeet_error() {
    // A model directory with a non-empty recording goes to the Parakeet
    // engine, whose load error then comes from that engine.
    assert_eq!(transcription_plan(true, true, 1), TranscriptionPlan::Parakeet);
}
