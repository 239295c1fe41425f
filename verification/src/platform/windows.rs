//! The Windows runtime: the global hotkey and sounds work; overlay,
//! accessibility and text injection are not implemented.
use vstd::prelude::*;
use crate::platform::RuntimeCapabilities;

verus! {

/// Bands of the level meter the overlay animates.
pub const N_BANDS: usize = 7;

pub open spec fn not_implemented_text() -> Seq<char> {
    "Windows runtime support is not implemented yet for overlay, accessibility, or text injection."@
}

fn not_implemented() -> (r: String)
    ensures
        r@ == not_implemented_text(),
{
    "Windows runtime support is not implemented yet for overlay, accessibility, or text injection.".to_string()
}

pub fn runtime_capabilities() -> (r: RuntimeCapabilities)
    ensures
        !r.overlay && r.global_hotkey && !r.text_injection && !r.accessibility_permissions
            && r.sound_playback,
{
    RuntimeCapabilities {
        overlay: false,
        global_hotkey: true,
        text_injection: false,
        accessibility_permissions: false,
        sound_playback: true,
    }
}

pub fn default_push_to_talk_key_label() -> (r: &'static str)
    ensures
        r@ == "Right Win"@,
{
    "Right Win"
}

pub fn accessibility_help() -> (r: &'static str)
    ensures
        r@ == not_implemented_text(),
{
    "Windows runtime support is not implemented yet for overlay, accessibility, or text injection."
}

pub fn has_accessibility_permission() -> (r: bool)
    ensures
        !r,
{
    false
}

pub fn has_microphone_permission() -> (r: bool)
    ensures
        !r,
{
    false
}

/// Nothing to request on Windows.
pub fn request_microphone_permission() {
}

/// There is no settings page to open on Windows.
pub fn open_accessibility_system_settings() {
}

/// There is no settings page to open on Windows.
pub fn open_microphone_system_settings() {
}

pub fn clear_permission_state(kind: &str) -> (r: Result<(), String>)
    ensures
        r matches Err(m) && m@ == not_implemented_text(),
{
    Err(not_implemented())
}

pub fn ensure_accessibility_permission_for_daemon_startup() -> (r: Result<(), String>)
    ensures
        r matches Err(m) && m@ == not_implemented_text(),
{
    Err(not_implemented())
}

pub fn inject_text(text: &str) -> (r: Result<(), String>)
    ensures
        r matches Err(m) && m@ == not_implemented_text(),
{
    Err(not_implemented())
}

pub fn run_setup_window(config_path: &str) -> (r: Result<(), String>)
    ensures
        r matches Err(m) && m@ == not_implemented_text(),
{
    Err(not_implemented())
}

} // verus!
