//! The decisions of the push-to-talk daemon: what a key press or release
//! does, and what becomes of a transcript. The caller records, plays the
//! sounds, transcribes and injects the text.
use vstd::prelude::*;
use crate::state::{join_path, path_join};
use crate::text::{chars_of, push_all, string_of, trim, trim_chars};

verus! {

/// A change of the push-to-talk key.
#[derive(Debug, Clone, Copy, PartialEq, Eq, Structural)]
pub enum PttEvent {
    Down,
    Up,
}

/// Whether a recording is under way.
#[derive(Debug, Clone, Copy, PartialEq, Eq, Structural)]
pub enum PttState {
    Idle,
    Recording,
}

/// What the daemon does for a key change.
#[derive(Debug, Clone, Copy, PartialEq, Eq, Structural)]
pub enum PttAction {
    /// Play the start sound and start recording.
    StartRecording,
    /// Play the stop sound, stop recording, and transcribe what was heard.
    StopRecording,
    /// Nothing: a press while recording or a release while idle.
    Ignore,
}

pub open spec fn ptt_next(s: PttState, e: PttEvent) -> (PttState, PttAction) {
    match (s, e) {
        (PttState::Idle, PttEvent::Down) => (PttState::Recording, PttAction::StartRecording),
        (PttState::Recording, PttEvent::Up) => (PttState::Idle, PttAction::StopRecording),
        _ => (s, PttAction::Ignore),
    }
}

/// The daemon's response to a key change in state `s`.
pub fn ptt_transition(s: PttState, e: PttEvent) -> (r: (PttState, PttAction))
    ensures
        r == ptt_next(s, e),
{
    match (s, e) {
        (PttState::Idle, PttEvent::Down) => (PttState::Recording, PttAction::StartRecording),
        (PttState::Recording, PttEvent::Up) => (PttState::Idle, PttAction::StopRecording),
        _ => (s, PttAction::Ignore),
    }
}

/// The state after a sequence of key changes.
pub open spec fn ptt_state_after(s: PttState, events: Seq<PttEvent>) -> PttState
    decreases events.len(),
{
    if events.len() == 0 {
        s
    } else {
        ptt_next(ptt_state_after(s, events.drop_last()), events.last()).0
    }
}

/// The recordings started and stopped along a sequence of key changes, in
/// order (the ignored changes left out).
pub open spec fn ptt_actions(s: PttState, events: Seq<PttEvent>) -> Seq<PttAction>
    decreases events.len(),
{
    if events.len() == 0 {
        Seq::empty()
    } else {
        let before = ptt_actions(s, events.drop_last());
        let a = ptt_next(ptt_state_after(s, events.drop_last()), events.last()).1;
        if a == PttAction::Ignore {
            before
        } else {
            before.push(a)
        }
    }
}

/// From idle, whatever keys are pressed and released, recordings are
/// started and stopped in turn, beginning with a start; one is under way
/// exactly when more were started than stopped.
pub proof fn lemma_ptt_alternates(events: Seq<PttEvent>)
    ensures
        forall|k: int|
            0 <= k < ptt_actions(PttState::Idle, events).len() ==> #[trigger] ptt_actions(
                PttState::Idle,
                events,
            )[k] == if k % 2 == 0 {
                PttAction::StartRecording
            } else {
                PttAction::StopRecording
            },
        (ptt_state_after(PttState::Idle, events) == PttState::Recording) == (ptt_actions(
            PttState::Idle,
            events,
        ).len() % 2 == 1),
    decreases events.len(),
{
    if events.len() > 0 {
        lemma_ptt_alternates(events.drop_last());
    }
}


/// A key press never stops a recording and a key release never starts one:
/// a press while recording (a repeat of the held key) changes nothing, and
/// so does a release while idle.
pub proof fn lemma_ptt_key_roles(s: PttState)
    ensures
        ptt_next(s, PttEvent::Down).1 != PttAction::StopRecording,
        ptt_next(s, PttEvent::Up).1 != PttAction::StartRecording,
        ptt_next(PttState::Recording, PttEvent::Down) == (
        PttState::Recording,
        PttAction::Ignore,
        ),
        ptt_next(PttState::Idle, PttEvent::Up) == (PttState::Idle, PttAction::Ignore),
{
}

/// While the key is held, however often it repeats, the recording goes on:
/// from `Recording`, presses alone leave it recording and do nothing.
pub proof fn lemma_ptt_held_key_keeps_recording(events: Seq<PttEvent>)
    requires
        forall|k: int| 0 <= k < events.len() ==> events[k] == PttEvent::Down,
    ensures
        ptt_state_after(PttState::Recording, events) == PttState::Recording,
        ptt_actions(PttState::Recording, events).len() == 0,
    decreases events.len(),
{
    if events.len() > 0 {
        lemma_ptt_held_key_keeps_recording(events.drop_last());
        assert(events.last() == PttEvent::Down);
    }
}

/// What becomes of a transcription.
#[derive(Debug, Clone, PartialEq, Eq)]
pub enum TranscriptOutcome {
    /// Transcription failed with this error text.
    Failed(String),
    /// Nothing was said: no text is injected.
    Empty,
    /// Inject this text (trimmed), and save the utterance if asked to.
    Deliver { text: String, save: bool },
}

/// The trimmed transcript is injected unless it is empty; a failure is
/// reported.
pub fn transcript_outcome(result: Result<String, String>, save_utterances: bool) -> (r:
    TranscriptOutcome)
    ensures
        match result {
            Err(e) => r == TranscriptOutcome::Failed(e),
            Ok(t) => if trim(t@).len() == 0 {
                r == TranscriptOutcome::Empty
            } else {
                r matches TranscriptOutcome::Deliver { text, save } && text@ == trim(t@) && save
                    == save_utterances
            },
        },
{
    match result {
        Err(e) => TranscriptOutcome::Failed(e),
        Ok(t) => {
            let trimmed = trim_chars(chars_of(t.as_str()).as_slice());
            if trimmed.len() == 0 {
                TranscriptOutcome::Empty
            } else {
                TranscriptOutcome::Deliver { text: string_of(trimmed.as_slice()), save: save_utterances }
            }
        },
    }
}

/// The lock file that keeps a second daemon from starting, in the log
/// directory.
pub fn daemon_lock_path(logs_dir: &str) -> (r: String)
    ensures
        r@ == path_join(logs_dir@, "daemon.lock"@),
{
    join_path(logs_dir, "daemon.lock")
}

/// The error shown when another daemon holds the lock.
pub fn lock_held_message(lock_path: &str) -> (r: String)
    ensures
        r@ == "jabberwok daemon is already running.\nlock file: "@ + lock_path@
            + "\nIf no daemon is running, remove that file and try again."@,
{
    let mut m = chars_of("jabberwok daemon is already running.\nlock file: ");
    push_all(&mut m, chars_of(lock_path).as_slice());
    push_all(
        &mut m,
        chars_of("\nIf no daemon is running, remove that file and try again.").as_slice(),
    );
    string_of(m.as_slice())
}

} // verus!
