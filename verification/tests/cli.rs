use jabberwok::cli::{
    help_text, normalize_args, Cli, Commands, ErrorKind, LaunchAgentAction, PermissionTarget,
};

fn args(items: &[&str]) -> Vec<String> {
    items.iter().map(|s| s.to_string()).collect()
}

#[test]
fn normalize_question_mark_to_help() {
    let a = normalize_args(&args(&["jabberwok", "-?"]));
    assert_eq!(a, vec!["jabberwok", "--help"]);
}

#[test]
fn normalize_leaves_other_args_unchanged() {
    let a = normalize_args(&args(&["jabberwok", "daemon", "--version"]));
    assert_eq!(a, vec!["jabberwok", "daemon", "--version"]);
}

#[test]
fn normalize_drops_macos_process_serial_number_arg() {
    let a = normalize_args(&args(&["jabberwok", "-psn_0_12345"]));
    assert_eq!(a, vec!["jabberwok"]);
}

#[test]
fn no_subcommand_parses_ok() {
    let cli = Cli::try_parse_from(&args(&["jabberwok"])).expect("parse failed");
    assert_eq!(cli.command, None);
}

#[test]
fn daemon_subcommand_parses_ok() {
    let cli = Cli::try_parse_from(&args(&["jabberwok", "daemon"])).expect("parse failed");
    assert_eq!(
        cli.command,
        Some(Commands::Daemon { model: None, config: None, save_utterances: false })
    );
}

#[test]
fn list_devices_subcommand_parses_ok() {
    let cli = Cli::try_parse_from(&args(&["jabberwok", "list-devices"])).expect("parse failed");
    assert_eq!(cli.command, Some(Commands::ListDevices { config: None }));
}

#[test]
fn unknown_subcommand_is_an_error() {
    let result = Cli::try_parse_from(&args(&["jabberwok", "bogus"]));
    assert!(result.is_err());
}

#[test]
fn launch_agent_subcommand_parses_ok() {
    let cli = Cli::try_parse_from(&args(&["jabberwok", "launch-agent", "status"]))
        .expect("parse failed");
    assert_eq!(
        cli.command,
        Some(Commands::LaunchAgent { action: LaunchAgentAction::Status })
    );
}

#[test]
fn help_flag_triggers_exit() {
    let err = Cli::try_parse_from(&args(&["jabberwok", "--help"])).unwrap_err();
    assert_eq!(err.kind(), ErrorKind::DisplayHelp);
}

#[test]
fn question_mark_help_triggers_exit_after_normalize() {
    let a = normalize_args(&args(&["jabberwok", "-?"]));
    let err = Cli::try_parse_from(&a).unwrap_err();
    assert_eq!(err.kind(), ErrorKind::DisplayHelp);
}

#[test]
fn help_text_contains_expected_content() {
    let text = help_text();
    assert!(text.contains("daemon"), "help should mention the daemon subcommand");
    assert!(text.contains("list-devices"), "help should mention the list-devices subcommand");
    assert!(text.contains("record"), "help should mention the record subcommand");
    assert!(text.contains("download-model"), "help should mention the download-model subcommand");
    assert!(text.contains("permissions"), "help should mention the permissions subcommand");
    assert!(text.contains("reset"), "help should mention the reset subcommand");
    assert!(text.contains("--help"), "help should mention --help flag");
    assert!(text.contains("--version"), "help should mention --version flag");
}

#[test]
fn type_subcommand_parses_ok() {
    let cli = Cli::try_parse_from(&args(&["jabberwok", "type", "hello world"]))
        .expect("parse failed");
    assert_eq!(cli.command, Some(Commands::Type { text: "hello world".to_string() }));
}

#[test]
fn type_subcommand_requires_text() {
    let result = Cli::try_parse_from(&args(&["jabberwok", "type"]));
    assert!(result.is_err());
}

#[test]
fn record_subcommand_parses_with_defaults() {
    let cli = Cli::try_parse_from(&args(&["jabberwok", "record"])).expect("parse failed");
    assert_eq!(
        cli.command,
        Some(Commands::Record { output: "recording.wav".to_string(), duration: 5 })
    );
}

#[test]
fn record_subcommand_accepts_custom_output() {
    let cli = Cli::try_parse_from(&args(&["jabberwok", "record", "--output", "out.wav"]))
        .expect("parse failed");
    assert_eq!(
        cli.command,
        Some(Commands::Record { output: "out.wav".to_string(), duration: 5 })
    );
}

#[test]
fn record_subcommand_accepts_custom_duration() {
    let cli = Cli::try_parse_from(&args(&["jabberwok", "record", "--duration", "30"]))
        .expect("parse failed");
    assert_eq!(
        cli.command,
        Some(Commands::Record { output: "recording.wav".to_string(), duration: 30 })
    );
}

#[test]
fn record_subcommand_accepts_both_flags() {
    let cli = Cli::try_parse_from(&args(&[
        "jabberwok",
        "record",
        "--output",
        "clip.wav",
        "--duration",
        "10",
    ]))
    .expect("parse failed");
    assert_eq!(
        cli.command,
        Some(Commands::Record { output: "clip.wav".to_string(), duration: 10 })
    );
}

#[test]
fn record_subcommand_rejects_non_numeric_duration() {
    let result = Cli::try_parse_from(&args(&["jabberwok", "record", "--duration", "abc"]));
    assert!(result.is_err());
}

#[test]
fn download_model_parses_name() {
    let cli = Cli::try_parse_from(&args(&["jabberwok", "download-model", "parakeet-v3"]))
        .expect("parse failed");
    assert_eq!(
        cli.command,
        Some(Commands::DownloadModel {
            model: Some("parakeet-v3".to_string()),
            config: None,
            models_dir: None,
        })
    );
}

#[test]
fn download_model_accepts_custom_dir() {
    let cli = Cli::try_parse_from(&args(&[
        "jabberwok",
        "download-model",
        "parakeet-v3",
        "--models-dir",
        "/tmp/models",
    ]))
    .expect("parse failed");
    assert_eq!(
        cli.command,
        Some(Commands::DownloadModel {
            model: Some("parakeet-v3".to_string()),
            config: None,
            models_dir: Some("/tmp/models".to_string()),
        })
    );
}

#[test]
fn download_model_allows_default_name() {
    let cli = Cli::try_parse_from(&args(&["jabberwok", "download-model"])).expect("parse failed");
    assert_eq!(
        cli.command,
        Some(Commands::DownloadModel { model: None, config: None, models_dir: None })
    );
}

#[test]
fn version_flag_triggers_exit() {
    let err = Cli::try_parse_from(&args(&["jabberwok", "--version"])).unwrap_err();
    assert_eq!(err.kind(), ErrorKind::DisplayVersion);
}

#[test]
fn select_device_subcommand_parses_with_input() {
    let cli = Cli::try_parse_from(&args(&["jabberwok", "select-device", "--input", "USB"]))
        .expect("parse failed");
    assert_eq!(
        cli.command,
        Some(Commands::SelectDevice {
            input: Some("USB".to_string()),
            output: None,
            host: None,
            config: None,
        })
    );
}

#[test]
fn select_device_rejects_no_selector() {
    let parsed = Cli::try_parse_from(&args(&["jabberwok", "select-device"])).expect("parse failed");
    match parsed.command.unwrap() {
        Commands::SelectDevice { input: None, output: None, host: _, config: _ } => {}
        _ => panic!("unexpected command"),
    }
}

#[test]
fn permissions_subcommand_parses_microphone() {
    let cli = Cli::try_parse_from(&args(&["jabberwok", "permissions", "microphone"]))
        .expect("parse failed");
    assert_eq!(
        cli.command,
        Some(Commands::Permissions { target: PermissionTarget::Microphone, remove: false })
    );
}

#[test]
fn doctor_subcommand_parses_ok() {
    let cli = Cli::try_parse_from(&args(&["jabberwok", "doctor"])).expect("parse failed");
    assert!(matches!(cli.command, Some(Commands::Doctor { .. })));
}

#[test]
fn setup_is_hidden_from_help() {
    let text = help_text();
    assert!(!text.contains("\n  setup"), "setup command should be hidden from help");
}

// Further cases of the grammar.

#[test]
fn options_accept_equals_and_short_forms() {
    let cli = Cli::try_parse_from(&args(&["jabberwok", "record", "-o", "a.wav", "-d=7"]))
        .expect("parse failed");
    assert_eq!(cli.command, Some(Commands::Record { output: "a.wav".to_string(), duration: 7 }));
    let cli = Cli::try_parse_from(&args(&["jabberwok", "daemon", "--config=/c.toml", "-mmodel"]))
        .expect("parse failed");
    assert_eq!(
        cli.command,
        Some(Commands::Daemon {
            model: Some("model".to_string()),
            config: Some("/c.toml".to_string()),
            save_utterances: false,
        })
    );
}

#[test]
fn repeated_option_is_a_conflict() {
    let err = Cli::try_parse_from(&args(&["jabberwok", "record", "-d", "1", "--duration", "2"]))
        .unwrap_err();
    assert_eq!(err.kind(), ErrorKind::ArgumentConflict);
    assert_eq!(err.message(), "the argument '--duration' cannot be used multiple times");
}

#[test]
fn error_kinds_for_bad_input() {
    let k = |a: &[&str]| Cli::try_parse_from(&args(a)).unwrap_err().kind();
    assert_eq!(k(&["jabberwok", "bogus"]), ErrorKind::InvalidSubcommand);
    assert_eq!(k(&["jabberwok", "daemon", "--nope"]), ErrorKind::UnknownArgument);
    assert_eq!(k(&["jabberwok", "record", "--duration", "abc"]), ErrorKind::ValueValidation);
    assert_eq!(k(&["jabberwok", "record", "--output"]), ErrorKind::InvalidValue);
    assert_eq!(k(&["jabberwok", "record", "--output", ""]), ErrorKind::InvalidValue);
    assert_eq!(k(&["jabberwok", "permissions", "camera"]), ErrorKind::InvalidValue);
    assert_eq!(k(&["jabberwok", "permissions"]), ErrorKind::MissingRequiredArgument);
    assert_eq!(k(&["jabberwok", "daemon", "--save-utterances=yes"]), ErrorKind::TooManyValues);
    assert_eq!(k(&["jabberwok", "type", "a", "b"]), ErrorKind::UnknownArgument);
    assert_eq!(k(&["jabberwok", "reset", "--wait-for-pid", "4294967296"]), ErrorKind::ValueValidation);
    assert_eq!(k(&["jabberwok", "help"]), ErrorKind::DisplayHelp);
    assert_eq!(k(&["jabberwok", "record", "-h"]), ErrorKind::DisplayHelp);
}

#[test]
fn transcribe_and_reset_options() {
    let cli = Cli::try_parse_from(&args(&[
        "jabberwok",
        "transcribe",
        "--input",
        "-f",
        "a.wav",
        "--save-utterances",
    ]))
    .expect("parse failed");
    assert_eq!(
        cli.command,
        Some(Commands::Transcribe {
            model: None,
            config: None,
            file: Some("a.wav".to_string()),
            duration: 5,
            inject: true,
            save_utterances: true,
        })
    );
    let cli = Cli::try_parse_from(&args(&["jabberwok", "reset", "--wait-for-pid", "42", "--relaunch"]))
        .expect("parse failed");
    assert_eq!(
        cli.command,
        Some(Commands::Reset { config: None, wait_for_pid: Some(42), relaunch: true })
    );
}

#[test]
fn dash_dash_ends_options() {
    let cli = Cli::try_parse_from(&args(&["jabberwok", "type", "--", "--not-a-flag"]))
        .expect("parse failed");
    assert_eq!(cli.command, Some(Commands::Type { text: "--not-a-flag".to_string() }));
}

#[test]
fn permission_target_names() {
    assert_eq!(PermissionTarget::Microphone.command_name(), "microphone");
    assert_eq!(PermissionTarget::Accessibility.command_name(), "accessibility");
    assert_eq!(PermissionTarget::All.command_name(), "all");
}

#[test]
fn help_text_lists_commands_in_columns() {
    let text = help_text();
    assert!(text.contains("\n  daemon          Run as a background service that responds to key events\n"));
    assert!(text.contains("\n  download-model  Download a known model by name and set it as the default\n"));
    assert!(!text.contains("\n  tutorial"));
    assert!(text.ends_with("  -V, --version  Print version\n"));
}
