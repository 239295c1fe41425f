//! What the commands decide and print, apart from the work they hand to
//! the platform: which configuration file applies, which model to
//! download, whether the daemon may start, and the messages shown.
use vstd::prelude::*;
use crate::config::models::{default_path, ModelConfig};
use crate::config::schema::{opt_view, DevicesConfig};
use crate::setup::Readiness;
use crate::state::{models_dir_for_config, models_dir_of};
use crate::text::{chars_of, push_all, starts_with, starts_with_chars, string_of, string_views, sub_vec};

verus! {

/// The configuration path given on a command line: the value of the first
/// `--config=PATH`, or the argument after the first `--config`.
pub open spec fn config_arg(args: Seq<Seq<char>>) -> Option<Seq<char>>
    decreases args.len(),
{
    if args.len() == 0 {
        None
    } else {
        let a = args[0];
        if starts_with(a, "--config="@) {
            Some(a.skip(9))
        } else if a == "--config"@ {
            if args.len() > 1 {
                Some(args[1])
            } else {
                None
            }
        } else {
            config_arg(args.drop_first())
        }
    }
}

pub fn extract_config_arg(args: &[String]) -> (r: Option<String>)
    ensures
        opt_view(r) == config_arg(string_views(args@)),
{
    let ghost all = string_views(args@);
    let prefix = chars_of("--config=");
    let flag = chars_of("--config");
    proof {
        reveal_strlit("--config=");
    }
    let mut i: usize = 0;
    assert(all.skip(0) =~= all);
    while i < args.len()
        invariant
            i <= args@.len(),
            all == string_views(args@),
            prefix@ == "--config="@,
            prefix@.len() == 9,
            flag@ == "--config"@,
            config_arg(all) == config_arg(all.skip(i as int)),
        decreases args@.len() - i,
    {
        let a = chars_of(args[i].as_str());
        let ghost rest = all.skip(i as int);
        assert(rest[0] == a@);
        assert(rest.drop_first() =~= all.skip(i as int + 1));
        if starts_with_chars(a.as_slice(), prefix.as_slice()) {
            let v = sub_vec(a.as_slice(), 9, a.len());
            assert(v@ =~= a@.skip(9));
            return Some(string_of(v.as_slice()));
        }
        if crate::text::chars_eq(a.as_slice(), flag.as_slice()) {
            if i + 1 < args.len() {
                assert(rest[1] == args@[i + 1]@);
                return Some(args[i + 1].clone());
            }
            return None;
        }
        i = i + 1;
    }
    assert(all.skip(args@.len() as int).len() == 0);
    None
}

/// The model `download-model` fetches: the one requested, else the
/// configured default, else `parakeet-v3`.
pub open spec fn download_model_name(
    requested: Option<Seq<char>>,
    configured_default: Option<Seq<char>>,
) -> Seq<char> {
    match requested {
        Some(r) => r,
        None => match configured_default {
            Some(d) => d,
            None => "parakeet-v3"@,
        },
    }
}

/// `configured_default` is the default model of the configuration, or
/// `None` when there is none or the file could not be read.
pub fn resolve_download_model_name(
    requested: Option<String>,
    configured_default: Option<String>,
) -> (r: String)
    ensures
        r@ == download_model_name(opt_view(requested), opt_view(configured_default)),
{
    match requested {
        Some(r) => r,
        None => match configured_default {
            Some(d) => d,
            None => "parakeet-v3".to_string(),
        },
    }
}

/// The directory `download-model` installs into: the one requested, else
/// the one belonging to the configuration file.
pub fn resolve_models_dir(config_path: &str, requested: Option<String>) -> (r: String)
    ensures
        r@ == match opt_view(requested) {
            Some(d) => d,
            None => models_dir_of(config_path@),
        },
{
    match requested {
        Some(d) => d,
        None => models_dir_for_config(config_path),
    }
}

/// Whether `list-devices` shows the `default` host's preferences because
/// this host has none of its own.
pub fn uses_fallback_prefs(devices: &DevicesConfig, hostname: &str) -> (r: bool)
    ensures
        r == (!devices@.contains_key(hostname@) && devices@.contains_key("default"@)),
{
    !devices.contains_key(hostname) && devices.contains_key("default")
}

/// Why the daemon refuses to start for lack of a permission.
pub open spec fn daemon_permission_error(r: Readiness) -> Option<Seq<char>> {
    if !r.microphone_permission_granted {
        Some("microphone permission required. run `jabberwok permissions microphone`"@)
    } else if !r.accessibility_permission_granted {
        Some("accessibility permission required. run `jabberwok permissions accessibility`"@)
    } else {
        None
    }
}

pub fn check_daemon_permissions(r: &Readiness) -> (res: Result<(), String>)
    ensures
        match res {
            Ok(()) => daemon_permission_error(*r) is None,
            Err(m) => daemon_permission_error(*r) == Some(m@),
        },
{
    if !r.microphone_permission_granted {
        Err("microphone permission required. run `jabberwok permissions microphone`".to_string())
    } else if !r.accessibility_permission_granted {
        Err(
            "accessibility permission required. run `jabberwok permissions accessibility`".to_string(),
        )
    } else {
        Ok(())
    }
}

/// The model the daemon or `transcribe` uses: the one given, else the
/// installed default.
pub fn model_path_for_run(explicit: Option<String>, models: &ModelConfig) -> (r: Result<String, String>)
    ensures
        match opt_view(explicit) {
            Some(p) => r matches Ok(q) && q@ == p,
            None => match default_path(models@) {
                Some(p) => r matches Ok(q) && q@ == p,
                None => r matches Err(m) && m@
                    == "no default model; run `download-model` first or pass --model"@,
            },
        },
{
    match explicit {
        Some(p) => Ok(p),
        None => match models.default_model_path() {
            Some(p) => Ok(p.clone()),
            None => Err("no default model; run `download-model` first or pass --model".to_string()),
        },
    }
}

/// What starting the application does, from a readiness evaluation and
/// the default model path.
#[derive(Debug, Clone, PartialEq, Eq)]
pub enum StartPlan {
    /// Not ready: show the doctor report and the setup window, then judge
    /// again.
    Setup,
    /// Start the daemon with this model.
    Start { model_path: String },
    /// Ready, yet no default model path is configured.
    NoDefaultModel,
}

pub fn start_plan(readiness: &Readiness, models: &ModelConfig) -> (r: StartPlan)
    ensures
        if !readiness.can_start_daemon {
            r == StartPlan::Setup
        } else {
            match default_path(models@) {
                Some(p) => r matches StartPlan::Start { model_path } && model_path@ == p,
                None => r == StartPlan::NoDefaultModel,
            }
        },
{
    if !readiness.can_start_daemon {
        return StartPlan::Setup;
    }
    match models.default_model_path() {
        Some(p) => StartPlan::Start { model_path: p.clone() },
        None => StartPlan::NoDefaultModel,
    }
}

/// The tutorial is shown when asked for or not seen yet.
pub fn show_tutorial(force: bool, has_seen_tutorial: bool) -> (r: bool)
    ensures
        r == (force || !has_seen_tutorial),
{
    force || !has_seen_tutorial
}

fn line3(a: &str, b: &str, c: &str) -> (r: String)
    ensures
        r@ == a@ + b@ + c@,
{
    let mut m = chars_of(a);
    push_all(&mut m, chars_of(b).as_slice());
    push_all(&mut m, chars_of(c).as_slice());
    string_of(m.as_slice())
}

/// What `select-device` reports: a line for the input when an input
/// selector was given, and one for the output when one was given or a
/// device was chosen.
pub open spec fn selection_report(
    host: Seq<char>,
    input_given: bool,
    output_given: bool,
    input: Option<Seq<char>>,
    output: Option<Seq<char>>,
) -> Seq<Seq<char>> {
    (if input_given {
        seq![
            match input {
                Some(n) => "["@ + host + "] Input device set to \""@ + n + "\""@,
                None => "["@ + host + "] Input device cleared \u{2014} using OS default"@,
            },
        ]
    } else {
        Seq::empty()
    }) + match output {
        Some(n) => seq!["["@ + host + "] Output device set to \""@ + n + "\""@],
        None => if output_given {
            seq!["["@ + host + "] Output device cleared \u{2014} using OS default"@]
        } else {
            Seq::empty()
        },
    }
}

fn device_line(host: &str, kind: &str, name: &Option<String>) -> (r: String)
    ensures
        r@ == match opt_view(*name) {
            Some(n) => "["@ + host@ + "] "@ + kind@ + " device set to \""@ + n + "\""@,
            None => "["@ + host@ + "] "@ + kind@ + " device cleared \u{2014} using OS default"@,
        },
{
    let mut m = chars_of("[");
    push_all(&mut m, chars_of(host).as_slice());
    push_all(&mut m, chars_of("] ").as_slice());
    push_all(&mut m, chars_of(kind).as_slice());
    match name {
        Some(n) => {
            push_all(&mut m, chars_of(" device set to \"").as_slice());
            push_all(&mut m, chars_of(n.as_str()).as_slice());
            push_all(&mut m, chars_of("\"").as_slice());
        },
        None => {
            push_all(&mut m, chars_of(" device cleared \u{2014} using OS default").as_slice());
        },
    }
    string_of(m.as_slice())
}

pub fn select_device_report(
    host: &str,
    input_given: bool,
    output_given: bool,
    input: &Option<String>,
    output: &Option<String>,
) -> (r: Vec<String>)
    ensures
        string_views(r@) == selection_report(
            host@,
            input_given,
            output_given,
            opt_view(*input),
            opt_view(*output),
        ),
{
    let mut lines: Vec<String> = Vec::new();
    proof {
        reveal_strlit("Input");
        reveal_strlit("Output");
        reveal_strlit("] ");
        reveal_strlit("] Input device set to \"");
        reveal_strlit("] Output device set to \"");
        reveal_strlit(" device set to \"");
        reveal_strlit("] Input device cleared \u{2014} using OS default");
        reveal_strlit("] Output device cleared \u{2014} using OS default");
        reveal_strlit(" device cleared \u{2014} using OS default");
    }
    if input_given {
        let l = device_line(host, "Input", input);
        assert(l@ =~= match opt_view(*input) {
            Some(n) => "["@ + host@ + "] Input device set to \""@ + n + "\""@,
            None => "["@ + host@ + "] Input device cleared \u{2014} using OS default"@,
        });
        lines.push(l);
    }
    let ghost first = string_views(lines@);
    if output.is_some() || output_given {
        let l = device_line(host, "Output", output);
        assert(l@ =~= match opt_view(*output) {
            Some(n) => "["@ + host@ + "] Output device set to \""@ + n + "\""@,
            None => "["@ + host@ + "] Output device cleared \u{2014} using OS default"@,
        });
        lines.push(l);
        assert(string_views(lines@) =~= first.push(l@));
    }
    assert(string_views(lines@) =~= selection_report(
        host@,
        input_given,
        output_given,
        opt_view(*input),
        opt_view(*output),
    ));
    lines
}

/// What `permissions` prints when the permission is already granted.
pub fn already_granted_note(name: &str) -> (r: String)
    ensures
        r@ == name@
            + " permission is already granted.\nNote: for `cargo run`, this may reflect the current host app (Terminal, WezTerm, etc.) rather than the packaged Jabberwok app."@,
{
    let mut m = chars_of(name);
    push_all(
        &mut m,
        chars_of(
            " permission is already granted.\nNote: for `cargo run`, this may reflect the current host app (Terminal, WezTerm, etc.) rather than the packaged Jabberwok app.",
        ).as_slice(),
    );
    string_of(m.as_slice())
}

/// What `permissions` prints after requesting a permission.
pub fn requested_note(name: &str) -> (r: String)
    ensures
        r@ == "Requested "@ + name@
            + " permission flow. If it did not open automatically, use System Settings manually.\nNote: grant permission to the application (Terminal, Wezterm, etc.) that you're currently running in."@,
{
    line3(
        "Requested ",
        name,
        " permission flow. If it did not open automatically, use System Settings manually.\nNote: grant permission to the application (Terminal, Wezterm, etc.) that you're currently running in.",
    )
}

/// What `launch-agent status` prints.
pub fn launch_agent_status_line(installed: bool) -> (r: &'static str)
    ensures
        r@ == if installed {
            "Jabberwok LaunchAgent: installed"@
        } else {
            "Jabberwok LaunchAgent: not installed"@
        },
{
    if installed {
        "Jabberwok LaunchAgent: installed"
    } else {
        "Jabberwok LaunchAgent: not installed"
    }
}

/// What `download-model` prints when it is done.
pub fn downloaded_note(model: &str, dest: &str) -> (r: String)
    ensures
        r@ == "Downloaded "@ + model@ + " to "@ + dest@,
{
    let mut m = chars_of("Downloaded ");
    push_all(&mut m, chars_of(model).as_slice());
    push_all(&mut m, chars_of(" to ").as_slice());
    push_all(&mut m, chars_of(dest).as_slice());
    string_of(m.as_slice())
}

/// Why `tutorial` refuses to run, followed by the doctor report.
pub fn not_ready_message(doctor_text: &str) -> (r: String)
    ensures
        r@ == "jabberwok is not ready to start. Run `jabberwok setup` first.\n"@ + doctor_text@,
{
    let mut m = chars_of("jabberwok is not ready to start. Run `jabberwok setup` first.\n");
    push_all(&mut m, chars_of(doctor_text).as_slice());
    string_of(m.as_slice())
}

} // verus!
