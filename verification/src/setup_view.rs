//! What the setup window shows for a progress message: status texts, their
//! colours, and which buttons are enabled with which titles.
use vstd::prelude::*;
use crate::config::schema::opt_view;
use crate::setup_worker::SetupProgress;
use crate::text::{chars_of, push_all, string_of};

verus! {

/// The colour of a status text.
#[derive(Clone, Copy, Debug, PartialEq, Eq, Structural)]
pub enum Tone {
    Good,
    Bad,
    Neutral,
}

/// The state of the setup window's controls.
#[derive(Debug, Clone)]
pub struct SetupWindowState {
    pub model_text: String,
    pub model_tone: Tone,
    pub microphone_text: &'static str,
    pub microphone_tone: Tone,
    pub microphone_button: &'static str,
    pub microphone_button_enabled: bool,
    pub accessibility_text: &'static str,
    pub accessibility_tone: Tone,
    pub accessibility_button: &'static str,
    pub accessibility_button_enabled: bool,
    pub download_button: &'static str,
    pub download_button_enabled: bool,
    pub launch_button_enabled: bool,
}

/// The model status line.
pub open spec fn model_status(p: SetupProgress) -> (Seq<char>, Tone) {
    let name = match opt_view(p.model_name) {
        Some(n) => n,
        None => "model"@,
    };
    if p.model_installed {
        ("[OK] Installed: "@ + name, Tone::Good)
    } else if p.download_failed {
        ("[ERR] Download Failed"@, Tone::Bad)
    } else if p.needs_download {
        ("[MISSING] Model Not Installed"@, Tone::Bad)
    } else {
        ("[ ~ ] Downloading "@ + name + "..."@, Tone::Neutral)
    }
}

pub open spec fn permission_text(granted: bool) -> Seq<char> {
    if granted {
        "[OK] Permission Granted"@
    } else {
        "[ ] Permission Not Granted"@
    }
}

pub open spec fn grant_title(granted: bool) -> Seq<char> {
    if granted {
        "Granted"@
    } else {
        "Grant"@
    }
}

pub open spec fn download_title(p: SetupProgress) -> Seq<char> {
    if p.model_installed {
        "Downloaded"@
    } else if p.download_failed {
        "Retry"@
    } else {
        "Download"@
    }
}

fn permission_text_str(granted: bool) -> (r: &'static str)
    ensures
        r@ == permission_text(granted),
{
    if granted {
        "[OK] Permission Granted"
    } else {
        "[ ] Permission Not Granted"
    }
}

fn grant_title_str(granted: bool) -> (r: &'static str)
    ensures
        r@ == grant_title(granted),
{
    if granted {
        "Granted"
    } else {
        "Grant"
    }
}

fn tone_of(granted: bool) -> (r: Tone)
    ensures
        r == if granted {
            Tone::Good
        } else {
            Tone::Bad
        },
{
    if granted {
        Tone::Good
    } else {
        Tone::Bad
    }
}

/// The controls' state for a progress message.
pub fn setup_window_state(p: &SetupProgress) -> (s: SetupWindowState)
    ensures
        (s.model_text@, s.model_tone) == model_status(*p),
        s.microphone_text@ == permission_text(p.microphone_permission_granted),
        s.microphone_tone == (if p.microphone_permission_granted {
            Tone::Good
        } else {
            Tone::Bad
        }),
        s.microphone_button@ == grant_title(p.microphone_permission_granted),
        s.microphone_button_enabled == !p.microphone_permission_granted,
        s.accessibility_text@ == permission_text(p.accessibility_permission_granted),
        s.accessibility_tone == (if p.accessibility_permission_granted {
            Tone::Good
        } else {
            Tone::Bad
        }),
        s.accessibility_button@ == grant_title(p.accessibility_permission_granted),
        s.accessibility_button_enabled == !p.accessibility_permission_granted,
        s.download_button@ == download_title(*p),
        s.download_button_enabled == (p.needs_download || p.download_failed),
        s.launch_button_enabled == p.ready,
{
    let name = match &p.model_name {
        Some(n) => chars_of(n.as_str()),
        None => chars_of("model"),
    };
    let (model_text, model_tone) = if p.model_installed {
        let mut m = chars_of("[OK] Installed: ");
        push_all(&mut m, name.as_slice());
        (string_of(m.as_slice()), Tone::Good)
    } else if p.download_failed {
        ("[ERR] Download Failed".to_string(), Tone::Bad)
    } else if p.needs_download {
        ("[MISSING] Model Not Installed".to_string(), Tone::Bad)
    } else {
        let mut m = chars_of("[ ~ ] Downloading ");
        push_all(&mut m, name.as_slice());
        push_all(&mut m, chars_of("...").as_slice());
        (string_of(m.as_slice()), Tone::Neutral)
    };
    let mic = p.microphone_permission_granted;
    let acc = p.accessibility_permission_granted;
    SetupWindowState {
        model_text,
        model_tone,
        microphone_text: permission_text_str(mic),
        microphone_tone: tone_of(mic),
        microphone_button: grant_title_str(mic),
        microphone_button_enabled: !mic,
        accessibility_text: permission_text_str(acc),
        accessibility_tone: tone_of(acc),
        accessibility_button: grant_title_str(acc),
        accessibility_button_enabled: !acc,
        download_button: if p.model_installed {
            "Downloaded"
        } else if p.download_failed {
            "Retry"
        } else {
            "Download"
        },
        download_button_enabled: p.needs_download || p.download_failed,
        launch_button_enabled: p.ready,
    }
}

} // verus!
