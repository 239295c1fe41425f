use jabberwok::daemon::{
    daemon_lock_path, lock_held_message, ptt_transition, transcript_outcome, PttAction, PttEvent,
    PttState, TranscriptOutcome,
};
use jabberwok::setup::{evaluate_readiness, Readiness, ReadinessProbe};
use jabberwok::config::models::{ModelConfig, ModelEntry};
use jabberwok::setup_view::{setup_window_state, Tone};
use jabberwok::setup_worker::{
    on_download_clicked, on_download_finished, on_download_phase, on_download_progress,
    on_readiness, setup_started, Percent, SetupNext,
};

fn readiness(installed: bool, can_start_path: bool, mic: bool) -> Readiness {
    let mut c = ModelConfig::default();
    c.models.push(ModelEntry {
        name: "tiny".to_string(),
        url: "https://x/tiny.bin".to_string(),
        sha256: None,
        path: if can_start_path { Some("/m/tiny".to_string()) } else { None },
    });
    c.default = Some("tiny".to_string());
    let probe = ReadinessProbe {
        model_dir_writable: true,
        model_dir_enough_space: true,
        model_dir_free_bytes: None,
        default_model_exists: installed,
        microphone_permission_granted: mic,
        accessibility_permission_granted: true,
    };
    evaluate_readiness("/c.toml", Some(&c), &probe)
}

#[test]
fn ptt_starts_and_stops_in_turn() {
    let mut s = PttState::Idle;
    let mut actions = Vec::new();
    for e in [PttEvent::Up, PttEvent::Down, PttEvent::Down, PttEvent::Up, PttEvent::Up, PttEvent::Down] {
        let (next, a) = ptt_transition(s, e);
        s = next;
        if a != PttAction::Ignore {
            actions.push(a);
        }
    }
    assert_eq!(actions, vec![PttAction::StartRecording, PttAction::StopRecording, PttAction::StartRecording]);
    assert_eq!(s, PttState::Recording);
}

#[test]
fn transcripts_are_trimmed_and_empty_ones_skipped() {
    assert_eq!(transcript_outcome(Ok("   ".to_string()), true), TranscriptOutcome::Empty);
    assert_eq!(
        transcript_outcome(Ok("  hello world \n".to_string()), true),
        TranscriptOutcome::Deliver { text: "hello world".to_string(), save: true }
    );
    assert_eq!(
        transcript_outcome(Err("boom".to_string()), false),
        TranscriptOutcome::Failed("boom".to_string())
    );
}

#[test]
fn daemon_lock_texts() {
    assert_eq!(daemon_lock_path("/logs"), "/logs/daemon.lock");
    assert_eq!(
        lock_held_message("/logs/daemon.lock"),
        "jabberwok daemon is already running.\nlock file: /logs/daemon.lock\nIf no daemon is running, remove that file and try again."
    );
}

#[test]
fn setup_worker_asks_for_download_then_downloads() {
    let start = setup_started();
    assert_eq!(start.phase, "Checking setup...");
    assert_eq!(start.percent, Percent::Fixed(0));
    let r = readiness(false, true, true);
    let step = on_readiness(&r);
    assert_eq!(step.messages.len(), 2);
    assert_eq!(step.messages[0].percent, Percent::Fixed(10));
    assert!(step.messages[1].needs_download);
    assert_eq!(step.messages[1].phase, "Click Download to install the model.");
    match &step.next {
        SetupNext::AwaitClick { download: Some(name) } => assert_eq!(name, "tiny"),
        other => panic!("unexpected {other:?}"),
    }
    let name = "tiny".to_string();
    let step = on_download_clicked(&r, &name);
    assert_eq!(step.messages[0].phase, "Downloading tiny...");
    assert_eq!(step.messages[0].percent, Percent::Fixed(20));
    let p = on_download_progress(&r, &name, 50, 100);
    assert_eq!(p.percent, Percent::Downloaded { downloaded: 50, total: 100 });
    let p = on_download_progress(&r, &name, 50, 0);
    assert_eq!(p.percent, Percent::Fixed(0));
    let p = on_download_phase(&r, &name, "Extracting model...");
    assert_eq!((p.percent, p.phase.as_str()), (Percent::Fixed(85), "Extracting tiny..."));
    let p = on_download_phase(&r, &name, "Finishing setup...");
    assert_eq!(p.percent, Percent::Fixed(95));
    let step = on_download_finished(&r, &name, Err("timeout".to_string()));
    assert!(step.messages[0].download_failed);
    assert_eq!(step.messages[0].phase, "Download failed: timeout. Click Retry.");
    assert!(matches!(step.next, SetupNext::AwaitClick { download: None }));
    let step = on_download_finished(&r, &name, Ok(()));
    assert!(step.messages.is_empty());
    assert!(matches!(step.next, SetupNext::EvaluateAfter(500)));
}

#[test]
fn setup_worker_finishes_when_ready() {
    let r = readiness(true, true, true);
    let step = on_readiness(&r);
    assert_eq!(step.messages.len(), 2);
    assert_eq!(step.messages[0].phase, "Checking permissions...");
    assert_eq!(step.messages[1].percent, Percent::Fixed(100));
    assert_eq!(step.messages[1].phase, "Ready. Launch Jabberwok when you're ready.");
    assert!(matches!(step.next, SetupNext::Stop));
    let r = readiness(true, true, false);
    let step = on_readiness(&r);
    assert_eq!(step.messages.len(), 1);
    assert_eq!(step.messages[0].phase, "Finish the remaining permission steps to start Jabberwok.");
    assert!(matches!(step.next, SetupNext::EvaluateAfter(500)));
}

#[test]
fn setup_window_reflects_progress() {
    let r = readiness(false, true, true);
    let step = on_readiness(&r);
    let s = setup_window_state(&step.messages[1]);
    assert_eq!(s.model_text, "[MISSING] Model Not Installed");
    assert_eq!(s.model_tone, Tone::Bad);
    assert!(s.download_button_enabled);
    assert_eq!(s.download_button, "Download");
    assert_eq!(s.microphone_text, "[OK] Permission Granted");
    assert!(!s.microphone_button_enabled);
    let name = "tiny".to_string();
    let s = setup_window_state(&on_download_progress(&r, &name, 1, 2));
    assert_eq!(s.model_text, "[ ~ ] Downloading tiny...");
    assert_eq!(s.model_tone, Tone::Neutral);
    let step = on_download_finished(&r, &name, Err("x".to_string()));
    let s = setup_window_state(&step.messages[0]);
    assert_eq!(s.download_button, "Retry");
    assert_eq!(s.model_text, "[ERR] Download Failed");
}
