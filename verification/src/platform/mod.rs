//! What each platform's runtime offers, what the daemon lacks where it
//! offers too little, and the platform-independent choices made around the
//! platform calls.
pub mod macos;
pub mod windows;

use vstd::prelude::*;
use crate::text::{chars_of, join, join_strings, push_all, string_of, string_views};

verus! {

/// The features the daemon needs from the platform.
#[derive(Clone, Copy, Debug, PartialEq, Eq)]
pub struct RuntimeCapabilities {
    pub overlay: bool,
    pub global_hotkey: bool,
    pub text_injection: bool,
    pub accessibility_permissions: bool,
    pub sound_playback: bool,
}

impl RuntimeCapabilities {
    /// The names of the missing features, in a fixed order.
    pub open spec fn missing(self) -> Seq<Seq<char>> {
        (if self.overlay {
            Seq::empty()
        } else {
            seq!["overlay"@]
        }) + (if self.global_hotkey {
            Seq::empty()
        } else {
            seq!["global hotkey"@]
        }) + (if self.text_injection {
            Seq::empty()
        } else {
            seq!["text injection"@]
        }) + (if self.accessibility_permissions {
            Seq::empty()
        } else {
            seq!["accessibility permission handling"@]
        }) + (if self.sound_playback {
            Seq::empty()
        } else {
            seq!["start/stop sounds"@]
        })
    }

    pub fn missing_daemon_features(self) -> (r: Vec<String>)
        ensures
            string_views(r@) == self.missing(),
    {
        let mut r: Vec<String> = Vec::new();
        let ghost s0 = string_views(r@);
        if !self.overlay {
            r.push("overlay".to_string());
        }
        let ghost s1 = string_views(r@);
        assert(s1 =~= s0 + if self.overlay {
            Seq::empty()
        } else {
            seq!["overlay"@]
        });
        if !self.global_hotkey {
            r.push("global hotkey".to_string());
        }
        let ghost s2 = string_views(r@);
        assert(s2 =~= s1 + if self.global_hotkey {
            Seq::empty()
        } else {
            seq!["global hotkey"@]
        });
        if !self.text_injection {
            r.push("text injection".to_string());
        }
        let ghost s3 = string_views(r@);
        assert(s3 =~= s2 + if self.text_injection {
            Seq::empty()
        } else {
            seq!["text injection"@]
        });
        if !self.accessibility_permissions {
            r.push("accessibility permission handling".to_string());
        }
        let ghost s4 = string_views(r@);
        assert(s4 =~= s3 + if self.accessibility_permissions {
            Seq::empty()
        } else {
            seq!["accessibility permission handling"@]
        });
        if !self.sound_playback {
            r.push("start/stop sounds".to_string());
        }
        assert(string_views(r@) =~= s4 + if self.sound_playback {
            Seq::empty()
        } else {
            seq!["start/stop sounds"@]
        });
        assert(s0 =~= Seq::<Seq<char>>::empty());
        assert(string_views(r@) =~= self.missing());
        r
    }
}

/// Why the daemon cannot run on platform `os`, if it lacks a feature.
pub open spec fn runtime_support_error(os: Seq<char>, caps: RuntimeCapabilities) -> Option<Seq<char>> {
    if caps.missing().len() == 0 {
        None
    } else {
        Some(
            os + " daemon runtime is not implemented yet. Missing features: "@ + join(
                caps.missing(),
                ", "@,
            ) + "."@,
        )
    }
}

pub fn ensure_daemon_runtime_support(os: &str, caps: RuntimeCapabilities) -> (r: Result<(), String>)
    ensures
        match r {
            Ok(()) => runtime_support_error(os@, caps) is None,
            Err(m) => runtime_support_error(os@, caps) == Some(m@),
        },
{
    let missing = caps.missing_daemon_features();
    if missing.len() == 0 {
        return Ok(());
    }
    let mut m = chars_of(os);
    push_all(&mut m, chars_of(" daemon runtime is not implemented yet. Missing features: ").as_slice());
    push_all(&mut m, join_strings(missing.as_slice(), ", ").as_slice());
    push_all(&mut m, chars_of(".").as_slice());
    Err(string_of(m.as_slice()))
}

/// The permission services whose stored decision a reset of `kind`
/// (`Microphone`, `Accessibility` or `All`) clears, in the order they are
/// reset.
pub open spec fn services_to_reset(kind: Seq<char>) -> Seq<Seq<char>> {
    (if kind == "Accessibility"@ || kind == "All"@ {
        seq!["Accessibility"@]
    } else {
        Seq::empty()
    }) + (if kind == "Microphone"@ || kind == "All"@ {
        seq!["Microphone"@]
    } else {
        Seq::empty()
    })
}

pub fn permission_services(kind: &str) -> (r: Vec<String>)
    ensures
        string_views(r@) == services_to_reset(kind@),
{
    let k = chars_of(kind);
    let is = |w: &str| -> (b: bool)
        ensures
            b == (k@ == w@),
        { crate::text::chars_eq(k.as_slice(), chars_of(w).as_slice()) };
    let mut r: Vec<String> = Vec::new();
    let acc = is("Accessibility") || is("All");
    let mic = is("Microphone") || is("All");
    if acc {
        r.push("Accessibility".to_string());
    }
    let ghost first = string_views(r@);
    if mic {
        r.push("Microphone".to_string());
        assert(string_views(r@) =~= first.push("Microphone"@));
    }
    assert(string_views(r@) =~= services_to_reset(kind@));
    r
}

} // verus!
