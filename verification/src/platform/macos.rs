//! The macOS runtime: everything the daemon needs is available; the
//! decisions made around the system calls.
use vstd::prelude::*;
use crate::platform::RuntimeCapabilities;

verus! {

/// Bands of the level meter the overlay animates.
pub const N_BANDS: usize = 7;

/// What the setup window reports when it closes.
#[derive(Debug, Clone, Copy, PartialEq, Eq)]
pub struct SetupOutcome {
    /// Whether the user left "launch at login" checked.
    pub launch_at_login: bool,
}

pub open spec fn accessibility_message() -> Seq<char> {
    "Accessibility permission required.\nOpen System Settings -> Privacy & Security -> Accessibility\nand enable jabberwok, then try again."@
}

pub fn runtime_capabilities() -> (r: RuntimeCapabilities)
    ensures
        r.overlay && r.global_hotkey && r.text_injection && r.accessibility_permissions
            && r.sound_playback,
{
    RuntimeCapabilities {
        overlay: true,
        global_hotkey: true,
        text_injection: true,
        accessibility_permissions: true,
        sound_playback: true,
    }
}

pub fn default_push_to_talk_key_label() -> (r: &'static str)
    ensures
        r@ == "Right Cmd"@,
{
    "Right Cmd"
}

/// How to grant the Accessibility permission.
pub fn accessibility_help() -> (r: &'static str)
    ensures
        r@ == accessibility_message(),
{
    "Accessibility permission required.\nOpen System Settings -> Privacy & Security -> Accessibility\nand enable jabberwok, then try again."
}

/// The daemon starts only when the process is trusted for Accessibility.
pub fn ensure_accessibility_permission_for_daemon_startup(trusted: bool) -> (r: Result<(), String>)
    ensures
        match r {
            Ok(()) => trusted,
            Err(m) => !trusted && m@ == accessibility_message(),
        },
{
    if trusted {
        Ok(())
    } else {
        Err(accessibility_help().to_string())
    }
}

} // verus!
