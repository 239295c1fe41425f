//! The decisions of the first-run setup worker: which progress messages the
//! setup window is sent, and what the worker does next, for each thing that
//! happens. The caller performs the waiting, the download and the sending.
use vstd::prelude::*;
use crate::config::schema::{clone_opt, opt_view};
use crate::setup::Readiness;
use crate::text::{chars_of, push_all, string_of};

verus! {

/// How far along setup is. A download's share is a fraction the window
/// turns into a percentage: `20 + 60 * downloaded / total`.
#[derive(Debug, Clone, Copy, PartialEq, Eq)]
pub enum Percent {
    Fixed(u8),
    Downloaded { downloaded: u64, total: u64 },
}

/// One progress message for the setup window.
#[derive(Debug, Clone)]
pub struct SetupProgress {
    pub percent: Percent,
    pub phase: String,
    pub microphone_permission_granted: bool,
    pub accessibility_permission_granted: bool,
    pub ready: bool,
    pub download_failed: bool,
    pub needs_download: bool,
    pub model_installed: bool,
    pub model_name: Option<String>,
}

/// What the worker does after sending its messages.
#[derive(Debug, Clone)]
pub enum SetupNext {
    /// Setup is finished.
    Stop,
    /// Wait this many milliseconds, then evaluate readiness again.
    EvaluateAfter(u64),
    /// Wait for the user to click Download or Retry (or cancel); then
    /// download the named model, or evaluate readiness again when none is
    /// named.
    AwaitClick { download: Option<String> },
    /// Download the named model now.
    Download { name: String },
}

/// The messages to send and what to do next.
#[derive(Debug, Clone)]
pub struct SetupStep {
    pub messages: Vec<SetupProgress>,
    pub next: SetupNext,
}

/// A progress message, as plain values.
pub struct ProgressView {
    pub percent: Percent,
    pub phase: Seq<char>,
    pub microphone_permission_granted: bool,
    pub accessibility_permission_granted: bool,
    pub ready: bool,
    pub download_failed: bool,
    pub needs_download: bool,
    pub model_installed: bool,
    pub model_name: Option<Seq<char>>,
}

impl View for SetupProgress {
    type V = ProgressView;

    open spec fn view(&self) -> ProgressView {
        ProgressView {
            percent: self.percent,
            phase: self.phase@,
            microphone_permission_granted: self.microphone_permission_granted,
            accessibility_permission_granted: self.accessibility_permission_granted,
            ready: self.ready,
            download_failed: self.download_failed,
            needs_download: self.needs_download,
            model_installed: self.model_installed,
            model_name: opt_view(self.model_name),
        }
    }
}

pub open spec fn progress_views(s: Seq<SetupProgress>) -> Seq<ProgressView> {
    s.map_values(|p: SetupProgress| p@)
}

pub enum NextView {
    Stop,
    EvaluateAfter(nat),
    AwaitClick(Option<Seq<char>>),
    Download(Seq<char>),
}

pub open spec fn next_view(n: SetupNext) -> NextView {
    match n {
        SetupNext::Stop => NextView::Stop,
        SetupNext::EvaluateAfter(ms) => NextView::EvaluateAfter(ms as nat),
        SetupNext::AwaitClick { download } => NextView::AwaitClick(opt_view(download)),
        SetupNext::Download { name } => NextView::Download(name@),
    }
}

/// A message carrying the permission state of `r`, not ready, no download
/// under way or failed, model not installed.
pub open spec fn busy(r: Readiness, percent: Percent, phase: Seq<char>, name: Option<Seq<char>>) -> ProgressView {
    ProgressView {
        percent,
        phase,
        microphone_permission_granted: r.microphone_permission_granted,
        accessibility_permission_granted: r.accessibility_permission_granted,
        ready: false,
        download_failed: false,
        needs_download: false,
        model_installed: false,
        model_name: name,
    }
}

fn busy_message(r: &Readiness, percent: Percent, phase: String, name: Option<String>) -> (p: SetupProgress)
    ensures
        p@ == busy(*r, percent, phase@, opt_view(name)),
{
    SetupProgress {
        percent,
        phase,
        microphone_permission_granted: r.microphone_permission_granted,
        accessibility_permission_granted: r.accessibility_permission_granted,
        ready: false,
        download_failed: false,
        needs_download: false,
        model_installed: false,
        model_name: name,
    }
}

/// The first message, sent before anything is known.
pub fn setup_started() -> (p: SetupProgress)
    ensures
        p@ == (ProgressView {
            percent: Percent::Fixed(0),
            phase: "Checking setup..."@,
            microphone_permission_granted: false,
            accessibility_permission_granted: false,
            ready: false,
            download_failed: false,
            needs_download: false,
            model_installed: false,
            model_name: None,
        }),
{
    SetupProgress {
        percent: Percent::Fixed(0),
        phase: "Checking setup...".to_string(),
        microphone_permission_granted: false,
        accessibility_permission_granted: false,
        ready: false,
        download_failed: false,
        needs_download: false,
        model_installed: false,
        model_name: None,
    }
}

/// The status message for a fresh readiness evaluation.
pub open spec fn status_message(r: Readiness) -> ProgressView {
    ProgressView {
        percent: Percent::Fixed(10),
        phase: match opt_view(r.repair_reason) {
            Some(reason) => reason,
            None => "Checking permissions..."@,
        },
        microphone_permission_granted: r.microphone_permission_granted,
        accessibility_permission_granted: r.accessibility_permission_granted,
        ready: r.can_start_daemon,
        download_failed: false,
        needs_download: false,
        model_installed: r.model_installed,
        model_name: opt_view(r.default_model_name),
    }
}

/// The message that ends setup.
pub open spec fn ready_message(r: Readiness) -> ProgressView {
    ProgressView {
        percent: Percent::Fixed(100),
        phase: "Ready. Launch Jabberwok when you're ready."@,
        microphone_permission_granted: true,
        accessibility_permission_granted: true,
        ready: true,
        download_failed: false,
        needs_download: false,
        model_installed: true,
        model_name: opt_view(r.default_model_name),
    }
}

fn ready_message_exec(r: &Readiness) -> (p: SetupProgress)
    ensures
        p@ == ready_message(*r),
{
    SetupProgress {
        percent: Percent::Fixed(100),
        phase: "Ready. Launch Jabberwok when you're ready.".to_string(),
        microphone_permission_granted: true,
        accessibility_permission_granted: true,
        ready: true,
        download_failed: false,
        needs_download: false,
        model_installed: true,
        model_name: clone_opt(&r.default_model_name),
    }
}

/// The end of a pass: finished when the evaluation said the daemon can
/// start, otherwise another evaluation in half a second.
pub open spec fn pass_end(r: Readiness) -> (Seq<ProgressView>, NextView) {
    if r.can_start_daemon {
        (seq![ready_message(r)], NextView::Stop)
    } else {
        (Seq::empty(), NextView::EvaluateAfter(500))
    }
}

fn push_message(out: &mut Vec<SetupProgress>, p: SetupProgress)
    ensures
        progress_views(final(out)@) == progress_views(old(out)@).push(p@),
{
    let ghost before = out@;
    let ghost v = p@;
    out.push(p);
    assert(progress_views(out@) =~= progress_views(before).push(v));
}

/// What the worker does with a readiness evaluation: report it; then, when
/// a default model is configured but not installed, ask for a click on
/// Download; otherwise finish when the daemon can start, or evaluate again.
pub fn on_readiness(r: &Readiness) -> (s: SetupStep)
    ensures
        match (opt_view(r.default_model_name), r.model_installed) {
            (Some(name), false) => {
                &&& progress_views(s.messages@) == seq![
                    status_message(*r),
                    ProgressView {
                        needs_download: true,
                        ..busy(
                            *r,
                            Percent::Fixed(10),
                            "Click Download to install the model."@,
                            Some(name),
                        )
                    },
                ]
                &&& next_view(s.next) == NextView::AwaitClick(Some(name))
            },
            _ => {
                &&& progress_views(s.messages@) == seq![status_message(*r)] + pass_end(*r).0
                &&& next_view(s.next) == pass_end(*r).1
            },
        },
{
    let mut messages: Vec<SetupProgress> = Vec::new();
    let phase = match &r.repair_reason {
        Some(reason) => reason.clone(),
        None => "Checking permissions...".to_string(),
    };
    push_message(
        &mut messages,
        SetupProgress {
            percent: Percent::Fixed(10),
            phase,
            microphone_permission_granted: r.microphone_permission_granted,
            accessibility_permission_granted: r.accessibility_permission_granted,
            ready: r.can_start_daemon,
            download_failed: false,
            needs_download: false,
            model_installed: r.model_installed,
            model_name: clone_opt(&r.default_model_name),
        },
    );
    if !r.model_installed {
        if let Some(name) = &r.default_model_name {
            let mut p = busy_message(
                r,
                Percent::Fixed(10),
                "Click Download to install the model.".to_string(),
                Some(name.clone()),
            );
            p.needs_download = true;
            push_message(&mut messages, p);
            return SetupStep { messages, next: SetupNext::AwaitClick { download: Some(name.clone()) } };
        }
    }
    if r.can_start_daemon {
        push_message(&mut messages, ready_message_exec(r));
        SetupStep { messages, next: SetupNext::Stop }
    } else {
        assert(progress_views(messages@) =~= progress_views(messages@) + Seq::<ProgressView>::empty());
        SetupStep { messages, next: SetupNext::EvaluateAfter(500) }
    }
}

/// `Downloading <name>...`.
pub open spec fn downloading_phase(name: Seq<char>) -> Seq<char> {
    "Downloading "@ + name + "..."@
}

fn phase_for(pre: &str, name: &String, post: &str) -> (r: String)
    ensures
        r@ == pre@ + name@ + post@,
{
    let mut m = chars_of(pre);
    push_all(&mut m, chars_of(name.as_str()).as_slice());
    push_all(&mut m, chars_of(post).as_slice());
    string_of(m.as_slice())
}

/// The user clicked Download: announce the download and start it.
pub fn on_download_clicked(r: &Readiness, name: &String) -> (s: SetupStep)
    ensures
        progress_views(s.messages@) == seq![
            busy(*r, Percent::Fixed(20), downloading_phase(name@), Some(name@)),
        ],
        next_view(s.next) == NextView::Download(name@),
{
    let mut messages: Vec<SetupProgress> = Vec::new();
    push_message(
        &mut messages,
        busy_message(r, Percent::Fixed(20), phase_for("Downloading ", name, "..."), Some(name.clone())),
    );
    assert(progress_views(messages@) =~= seq![
        busy(*r, Percent::Fixed(20), downloading_phase(name@), Some(name@)),
    ]);
    SetupStep { messages, next: SetupNext::Download { name: name.clone() } }
}

/// The message for `downloaded` of `total` bytes received; with an
/// unknown total the share stays at zero.
pub fn on_download_progress(r: &Readiness, name: &String, downloaded: u64, total: u64) -> (p: SetupProgress)
    ensures
        p@ == busy(
            *r,
            if total == 0 {
                Percent::Fixed(0)
            } else {
                Percent::Downloaded { downloaded, total }
            },
            downloading_phase(name@),
            Some(name@),
        ),
{
    let percent = if total == 0 {
        Percent::Fixed(0)
    } else {
        Percent::Downloaded { downloaded, total }
    };
    busy_message(r, percent, phase_for("Downloading ", name, "..."), Some(name.clone()))
}

/// The percentage and text for a phase the downloader announces.
pub open spec fn phase_display(phase: Seq<char>, name: Seq<char>) -> (u8, Seq<char>) {
    if phase == "Extracting model..."@ {
        (85, "Extracting "@ + name + "..."@)
    } else if phase == "Finishing setup..."@ {
        (95, "Finishing setup..."@)
    } else {
        (20, downloading_phase(name))
    }
}

/// The message for a phase the downloader announces.
pub fn on_download_phase(r: &Readiness, name: &String, phase: &str) -> (p: SetupProgress)
    ensures
        p@ == busy(
            *r,
            Percent::Fixed(phase_display(phase@, name@).0),
            phase_display(phase@, name@).1,
            Some(name@),
        ),
{
    let ph = chars_of(phase);
    let (percent, display): (u8, String) = if crate::text::chars_eq(
        ph.as_slice(),
        chars_of("Extracting model...").as_slice(),
    ) {
        (85, phase_for("Extracting ", name, "..."))
    } else if crate::text::chars_eq(ph.as_slice(), chars_of("Finishing setup...").as_slice()) {
        (95, "Finishing setup...".to_string())
    } else {
        (20, phase_for("Downloading ", name, "..."))
    };
    busy_message(r, Percent::Fixed(percent), display, Some(name.clone()))
}

/// The message for a failed download, with the error's text.
pub open spec fn failed_message(r: Readiness, name: Seq<char>, error: Seq<char>) -> ProgressView {
    ProgressView {
        download_failed: true,
        ..busy(
            r,
            Percent::Fixed(0),
            "Download failed: "@ + error + ". Click Retry."@,
            Some(name),
        )
    }
}

/// The download ended: on failure, report it and wait for Retry before
/// evaluating again; on success, end the pass as the evaluation that
/// preceded the download decides.
pub fn on_download_finished(r: &Readiness, name: &String, result: Result<(), String>) -> (s: SetupStep)
    ensures
        match result {
            Ok(()) => progress_views(s.messages@) == pass_end(*r).0 && next_view(s.next)
                == pass_end(*r).1,
            Err(e) => progress_views(s.messages@) == seq![failed_message(*r, name@, e@)]
                && next_view(s.next) == NextView::AwaitClick(None),
        },
{
    let mut messages: Vec<SetupProgress> = Vec::new();
    match result {
        Err(e) => {
            let mut p = busy_message(
                r,
                Percent::Fixed(0),
                phase_for("Download failed: ", &e, ". Click Retry."),
                Some(name.clone()),
            );
            p.download_failed = true;
            push_message(&mut messages, p);
            assert(progress_views(messages@) =~= seq![failed_message(*r, name@, e@)]);
            SetupStep { messages, next: SetupNext::AwaitClick { download: None } }
        },
        Ok(()) => {
            if r.can_start_daemon {
                push_message(&mut messages, ready_message_exec(r));
                assert(progress_views(messages@) =~= seq![ready_message(*r)]);
                SetupStep { messages, next: SetupNext::Stop }
            } else {
                assert(progress_views(messages@) =~= Seq::<ProgressView>::empty());
                SetupStep { messages, next: SetupNext::EvaluateAfter(500) }
            }
        },
    }
}

} // verus!
