//! How a recording is transcribed: which engine a model path selects, and
//! where an utterance is saved.
use vstd::prelude::*;
use crate::state::{join_path, path_join};
use crate::text::{chars_of, push_all, string_of, trim, trim_chars};

verus! {

/// What transcribing a recording comes down to.
#[derive(Debug, Clone, PartialEq, Eq, Structural)]
pub enum TranscriptionPlan {
    /// The model path does not exist.
    ModelMissing,
    /// The recording holds no samples: the transcript is empty.
    EmptyRecording,
    /// A model directory: the Parakeet (ONNX) engine.
    Parakeet,
    /// A model file: the Whisper (whisper.cpp) engine.
    Whisper,
}

/// The plan for a model path that exists (or not) and is a directory (or
/// not), and a recording of `frames` samples per channel.
pub fn transcription_plan(model_exists: bool, model_is_dir: bool, frames: u32) -> (r: TranscriptionPlan)
    ensures
        r == if !model_exists {
            TranscriptionPlan::ModelMissing
        } else if frames == 0 {
            TranscriptionPlan::EmptyRecording
        } else if model_is_dir {
            TranscriptionPlan::Parakeet
        } else {
            TranscriptionPlan::Whisper
        },
{
    if !model_exists {
        TranscriptionPlan::ModelMissing
    } else if frames == 0 {
        TranscriptionPlan::EmptyRecording
    } else if model_is_dir {
        TranscriptionPlan::Parakeet
    } else {
        TranscriptionPlan::Whisper
    }
}

/// The error for a model path that does not exist.
pub fn model_not_found(model_path: &str) -> (r: String)
    ensures
        r@ == "model not found: "@ + model_path@,
{
    let mut m = chars_of("model not found: ");
    push_all(&mut m, chars_of(model_path).as_slice());
    string_of(m.as_slice())
}

/// The recording and transcript files of an utterance saved at local time
/// `stamp` (`YYYYMMDDTHHMMSS`), and the transcript text written.
pub fn utterance_files(dir: &str, stamp: &str, text: &str) -> (r: (String, String, String))
    ensures
        r.0@ == path_join(dir@, stamp@ + ".wav"@),
        r.1@ == path_join(dir@, stamp@ + ".txt"@),
        r.2@ == trim(text@),
{
    let mut wav = chars_of(stamp);
    push_all(&mut wav, chars_of(".wav").as_slice());
    let mut txt = chars_of(stamp);
    push_all(&mut txt, chars_of(".txt").as_slice());
    let wav_name = string_of(wav.as_slice());
    let txt_name = string_of(txt.as_slice());
    (
        join_path(dir, wav_name.as_str()),
        join_path(dir, txt_name.as_str()),
        string_of(trim_chars(chars_of(text).as_slice()).as_slice()),
    )
}

} // verus!
