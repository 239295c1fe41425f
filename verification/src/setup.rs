//! Readiness of the daemon to start, the doctor report, permission targets
//! and the texts shown around setup and reset.
use vstd::prelude::*;
use crate::config::models::{default_path, CatalogView, ModelConfig};
use crate::config::schema::{clone_opt, opt_view};
use crate::state::{models_dir_for_config, models_dir_of, StartupState};
use crate::text::{
    chars_eq, chars_of, decimal, decimal_chars, digit_char, join, join_strings, push_all,
    string_of, string_views,
};

verus! {

/// `2^s`.
pub open spec fn two_to(s: nat) -> nat
    decreases s,
{
    if s == 0 {
        1
    } else {
        2 * two_to((s - 1) as nat)
    }
}

/// How many low bits of `b` an `f64` cannot hold: `f64` keeps 53
/// significant bits.
pub open spec fn dropped_bits(b: nat) -> nat
    decreases b,
{
    if b < 0x20_0000_0000_0000 {
        0
    } else {
        1 + dropped_bits(b / 2)
    }
}

/// `n / d` rounded to the nearest integer, ties to the even one.
pub open spec fn round_half_even(n: nat, d: nat) -> nat {
    let q = n / d;
    let r = n % d;
    if 2 * r > d || (2 * r == d && q % 2 == 1) {
        q + 1
    } else {
        q
    }
}

/// The value of `b as f64`: `b` rounded to the nearest multiple of
/// `2^dropped_bits(b)`, ties to even.
pub open spec fn f64_value(b: nat) -> nat {
    let p = two_to(dropped_bits(b));
    round_half_even(b, p) * p
}

pub open spec fn gib() -> nat {
    0x4000_0000
}

pub open spec fn mib() -> nat {
    0x10_0000
}

/// A byte count in GiB (from 1 GiB on) or MiB, with one decimal, as
/// `format!("{:.1} GiB", bytes as f64 / GIB as f64)` writes it.
pub open spec fn bytes_text(bytes: nat) -> Seq<char> {
    let (num, den, unit) = if bytes >= gib() {
        (f64_value(bytes), gib(), " GiB"@)
    } else {
        (bytes, mib(), " MiB"@)
    };
    let tenths = round_half_even(num * 10, den);
    decimal(tenths / 10) + seq!['.', digit_char(tenths % 10)] + unit
}

proof fn lemma_dropped_bits_below(b: nat, k: nat)
    requires
        b < 0x20_0000_0000_0000 * two_to(k),
    ensures
        dropped_bits(b) <= k,
    decreases k,
{
    if b >= 0x20_0000_0000_0000 {
        if k == 0 {
            assert(false);
        } else {
            assert(b / 2 < 0x20_0000_0000_0000 * two_to((k - 1) as nat));
            lemma_dropped_bits_below(b / 2, (k - 1) as nat);
        }
    }
}

proof fn lemma_two_to_mono(a: nat, b: nat)
    requires
        a <= b,
    ensures
        two_to(a) <= two_to(b),
    decreases b,
{
    if a < b {
        lemma_two_to_mono(a, (b - 1) as nat);
    }
}

/// The value `b as f64` holds, as an integer.
fn f64_value_exec(b: u64) -> (r: u128)
    ensures
        r as nat == f64_value(b as nat),
        r <= 0x1_0000_0000_0000_0800,
{
    let mut x: u128 = b as u128;
    let mut p: u128 = 1;
    let ghost mut s: nat = 0;
    proof {
        reveal_with_fuel(two_to, 12);
        assert(two_to(11) == 2048);
        lemma_dropped_bits_below(b as nat, 11);
    }
    while x >= 0x20_0000_0000_0000
        invariant
            p as nat == two_to(s),
            x as nat == (b as nat) / (p as nat),
            dropped_bits(b as nat) == s + dropped_bits(x as nat),
            s <= 11,
            p <= 0x800,
            p >= 1,
            dropped_bits(b as nat) <= 11,
        decreases x,
    {
        proof {
            vstd::arithmetic::div_mod::lemma_div_denominator(b as int, p as int, 2);
            assert(dropped_bits(x as nat) >= 1);
            reveal_with_fuel(two_to, 11);
            assert(two_to(10) == 1024);
            lemma_two_to_mono(s, 10);
        }
        x = x / 2;
        p = p * 2;
        proof {
            s = s + 1;
        }
        assert(two_to(s) == 2 * two_to((s - 1) as nat));
    }
    assert(dropped_bits(x as nat) == 0);
    assert(s == dropped_bits(b as nat));
    let q = (b as u128) / p;
    let r = (b as u128) % p;
    let rounded = if 2 * r > p || (2 * r == p && q % 2 == 1) {
        q + 1
    } else {
        q
    };
    assert(rounded as nat == round_half_even(b as nat, p as nat));
    assert(q * p <= b as u128) by {
        vstd::arithmetic::div_mod::lemma_fundamental_div_mod(b as int, p as int);
    }
    assert(rounded * p <= 0x1_0000_0000_0000_0800) by (nonlinear_arith)
        requires
            rounded <= q + 1,
            q * p <= b,
            b < 0x1_0000_0000_0000_0000u128,
            p <= 0x800,
            p >= 1,
    ;
    rounded * p
}

/// `round_half_even(n, d)` for machine integers.
fn round_half_even_exec(n: u128, d: u128) -> (r: u128)
    requires
        d > 0,
        n <= 0x100_0000_0000_0000_0000,
    ensures
        r as nat == round_half_even(n as nat, d as nat),
        r <= n + 1,
{
    let q = n / d;
    let r = n % d;
    assert(q <= n) by {
        vstd::arithmetic::div_mod::lemma_fundamental_div_mod(n as int, d as int);
        assert(q <= n) by (nonlinear_arith)
            requires
                n == d * q + r,
                d >= 1,
                r >= 0,
                q >= 0,
        ;
    }
    if r > d - r || (r == d - r && q % 2 == 1) {
        q + 1
    } else {
        q
    }
}

/// A byte count as `1.5 GiB` or `512.0 MiB`.
pub fn format_bytes(bytes: u64) -> (r: String)
    ensures
        r@ == bytes_text(bytes as nat),
{
    let (num, den, unit): (u128, u128, &str) = if bytes >= 0x4000_0000 {
        (f64_value_exec(bytes), 0x4000_0000, " GiB")
    } else {
        (bytes as u128, 0x10_0000, " MiB")
    };
    assert(num <= 0x1_0000_0000_0000_0800);
    let tenths = round_half_even_exec(num * 10, den);
    let whole = (tenths / 10) as u64;
    let digit = (tenths % 10) as u8;
    let mut out = decimal_chars(whole);
    out.push('.');
    let c = (48u8 + digit) as char;
    assert(c == digit_char((tenths % 10) as nat));
    out.push(c);
    push_all(&mut out, chars_of(unit).as_slice());
    string_of(out.as_slice())
}


/// What the environment reports about the machine, gathered by the caller
/// before readiness is judged. The model directory meant is the one of the
/// configuration (`models_dir_for_config`).
#[derive(Debug, Clone)]
pub struct ReadinessProbe {
    pub model_dir_writable: bool,
    pub model_dir_enough_space: bool,
    pub model_dir_free_bytes: Option<u64>,
    /// Whether the default model's install path exists on disk.
    pub default_model_exists: bool,
    pub microphone_permission_granted: bool,
    pub accessibility_permission_granted: bool,
}

/// Whether the daemon can start, and if not, why.
#[derive(Debug, Clone)]
pub struct Readiness {
    pub parseable_config: bool,
    pub default_model_name: Option<String>,
    pub default_model_path: Option<String>,
    pub model_installed: bool,
    pub model_dir_writable: bool,
    pub model_dir_enough_space: bool,
    pub model_dir_free_bytes: Option<u64>,
    pub microphone_permission_granted: bool,
    pub accessibility_permission_granted: bool,
    pub can_start_daemon: bool,
    pub startup_state: StartupState,
    pub repair_reason: Option<String>,
}

pub struct ReadinessView {
    pub parseable_config: bool,
    pub default_model_name: Option<Seq<char>>,
    pub default_model_path: Option<Seq<char>>,
    pub model_installed: bool,
    pub model_dir_writable: bool,
    pub model_dir_enough_space: bool,
    pub model_dir_free_bytes: Option<u64>,
    pub microphone_permission_granted: bool,
    pub accessibility_permission_granted: bool,
    pub can_start_daemon: bool,
    pub startup_state: StartupState,
    pub repair_reason: Option<Seq<char>>,
}

impl View for Readiness {
    type V = ReadinessView;

    open spec fn view(&self) -> ReadinessView {
        ReadinessView {
            parseable_config: self.parseable_config,
            default_model_name: opt_view(self.default_model_name),
            default_model_path: opt_view(self.default_model_path),
            model_installed: self.model_installed,
            model_dir_writable: self.model_dir_writable,
            model_dir_enough_space: self.model_dir_enough_space,
            model_dir_free_bytes: self.model_dir_free_bytes,
            microphone_permission_granted: self.microphone_permission_granted,
            accessibility_permission_granted: self.accessibility_permission_granted,
            can_start_daemon: self.can_start_daemon,
            startup_state: self.startup_state,
            repair_reason: opt_view(self.repair_reason),
        }
    }
}

/// Why the default model is not usable, for one that is configured but
/// not installed.
pub open spec fn missing_model_detail(name: Option<Seq<char>>, path: Option<Seq<char>>) -> Seq<char> {
    match (name, path) {
        (Some(n), Some(p)) => "Your existing Jabberwok data was found, but the default model `"@ + n
            + "` is missing at "@ + p + ". Re-download it to continue."@,
        (Some(n), None) => "Your existing Jabberwok data was found, but the default model `"@ + n
            + "` has no install path. Re-download it to continue."@,
        _ => "Your existing Jabberwok data was found, but the default model is missing. Re-download it to continue."@,
    }
}

/// The startup state and its explanation, checked in this order: ready;
/// model directory not writable; not enough space; no default model;
/// default model missing; permissions missing.
pub open spec fn startup_decision(
    can_start: bool,
    model_dir: Seq<char>,
    probe: ReadinessProbe,
    name: Option<Seq<char>>,
    path: Option<Seq<char>>,
    installed: bool,
) -> (StartupState, Option<Seq<char>>) {
    if can_start {
        (StartupState::Ready, None)
    } else if !probe.model_dir_writable {
        (
            StartupState::NeedsRepair,
            Some("The models directory at "@ + model_dir + " is not writable."@),
        )
    } else if !probe.model_dir_enough_space {
        (
            StartupState::NeedsRepair,
            Some(
                "There is not enough free disk space to install or repair the default model."@,
            ),
        )
    } else if name is None {
        (StartupState::NeedsSetup, Some("Choose and install a default model to finish setup."@))
    } else if !installed {
        (StartupState::NeedsRepair, Some(missing_model_detail(name, path)))
    } else {
        (
            StartupState::NeedsSetup,
            Some("Finish the remaining permission steps to start Jabberwok."@),
        )
    }
}

/// Readiness for a configuration file whose model catalog is `models`
/// (`None` when the file could not be parsed), on the machine `probe`
/// describes.
pub open spec fn readiness_of(
    config_path: Seq<char>,
    models: Option<CatalogView>,
    probe: ReadinessProbe,
) -> ReadinessView {
    match models {
        None => ReadinessView {
            parseable_config: false,
            default_model_name: None,
            default_model_path: None,
            model_installed: false,
            model_dir_writable: false,
            model_dir_enough_space: false,
            model_dir_free_bytes: None,
            microphone_permission_granted: false,
            accessibility_permission_granted: false,
            can_start_daemon: false,
            startup_state: StartupState::NeedsRepair,
            repair_reason: Some(
                "Existing config at "@ + config_path
                    + " could not be parsed. Fix it or reset local data to continue."@,
            ),
        },
        Some(c) => {
            let name = c.default;
            let path = default_path(c);
            let installed = path is Some && probe.default_model_exists;
            let can_start = name is Some && installed && probe.model_dir_writable
                && probe.model_dir_enough_space && probe.microphone_permission_granted
                && probe.accessibility_permission_granted;
            let decision = startup_decision(
                can_start,
                models_dir_of(config_path),
                probe,
                name,
                path,
                installed,
            );
            ReadinessView {
                parseable_config: true,
                default_model_name: name,
                default_model_path: path,
                model_installed: installed,
                model_dir_writable: probe.model_dir_writable,
                model_dir_enough_space: probe.model_dir_enough_space,
                model_dir_free_bytes: probe.model_dir_free_bytes,
                microphone_permission_granted: probe.microphone_permission_granted,
                accessibility_permission_granted: probe.accessibility_permission_granted,
                can_start_daemon: can_start,
                startup_state: decision.0,
                repair_reason: decision.1,
            }
        },
    }
}

pub open spec fn catalog_of(models: Option<&ModelConfig>) -> Option<CatalogView> {
    match models {
        Some(m) => Some(m@),
        None => None,
    }
}

fn text3(a: &str, b: &[char], c: &str) -> (r: String)
    ensures
        r@ == a@ + b@ + c@,
{
    let mut m = chars_of(a);
    push_all(&mut m, b);
    push_all(&mut m, chars_of(c).as_slice());
    string_of(m.as_slice())
}

fn text5(a: &str, b: &[char], c: &str, d: &[char], e: &str) -> (r: String)
    ensures
        r@ == a@ + b@ + c@ + d@ + e@,
{
    let mut m = chars_of(a);
    push_all(&mut m, b);
    push_all(&mut m, chars_of(c).as_slice());
    push_all(&mut m, d);
    push_all(&mut m, chars_of(e).as_slice());
    string_of(m.as_slice())
}

fn missing_model_detail_exec(name: &Option<String>, path: &Option<String>) -> (r: String)
    ensures
        r@ == missing_model_detail(opt_view(*name), opt_view(*path)),
{
    match (name, path) {
        (Some(n), Some(p)) => text5(
            "Your existing Jabberwok data was found, but the default model `",
            chars_of(n.as_str()).as_slice(),
            "` is missing at ",
            chars_of(p.as_str()).as_slice(),
            ". Re-download it to continue.",
        ),
        (Some(n), None) => text3(
            "Your existing Jabberwok data was found, but the default model `",
            chars_of(n.as_str()).as_slice(),
            "` has no install path. Re-download it to continue.",
        ),
        _ => "Your existing Jabberwok data was found, but the default model is missing. Re-download it to continue.".to_string(),
    }
}

/// Judges whether the daemon can start. `models` is the configuration's
/// model catalog, or `None` when the configuration file could not be
/// parsed; `probe` is what the caller found on the machine.
pub fn evaluate_readiness(
    config_path: &str,
    models: Option<&ModelConfig>,
    probe: &ReadinessProbe,
) -> (r: Readiness)
    ensures
        r@ == readiness_of(config_path@, catalog_of(models), *probe),
{
    let c = match models {
        None => {
            return Readiness {
                parseable_config: false,
                default_model_name: None,
                default_model_path: None,
                model_installed: false,
                model_dir_writable: false,
                model_dir_enough_space: false,
                model_dir_free_bytes: None,
                microphone_permission_granted: false,
                accessibility_permission_granted: false,
                can_start_daemon: false,
                startup_state: StartupState::NeedsRepair,
                repair_reason: Some(
                    text3(
                        "Existing config at ",
                        chars_of(config_path).as_slice(),
                        " could not be parsed. Fix it or reset local data to continue.",
                    ),
                ),
            };
        },
        Some(c) => c,
    };
    let name = clone_opt(&c.default);
    let path = match c.default_model_path() {
        Some(p) => Some(p.clone()),
        None => None,
    };
    let installed = path.is_some() && probe.default_model_exists;
    let can_start = name.is_some() && installed && probe.model_dir_writable
        && probe.model_dir_enough_space && probe.microphone_permission_granted
        && probe.accessibility_permission_granted;
    let (state, reason) = if can_start {
        (StartupState::Ready, None)
    } else if !probe.model_dir_writable {
        (
            StartupState::NeedsRepair,
            Some(
                text3(
                    "The models directory at ",
                    chars_of(models_dir_for_config(config_path).as_str()).as_slice(),
                    " is not writable.",
                ),
            ),
        )
    } else if !probe.model_dir_enough_space {
        (
            StartupState::NeedsRepair,
            Some(
                "There is not enough free disk space to install or repair the default model.".to_string(),
            ),
        )
    } else if name.is_none() {
        (
            StartupState::NeedsSetup,
            Some("Choose and install a default model to finish setup.".to_string()),
        )
    } else if !installed {
        (StartupState::NeedsRepair, Some(missing_model_detail_exec(&name, &path)))
    } else {
        (
            StartupState::NeedsSetup,
            Some("Finish the remaining permission steps to start Jabberwok.".to_string()),
        )
    };
    Readiness {
        parseable_config: true,
        default_model_name: name,
        default_model_path: path,
        model_installed: installed,
        model_dir_writable: probe.model_dir_writable,
        model_dir_enough_space: probe.model_dir_enough_space,
        model_dir_free_bytes: probe.model_dir_free_bytes,
        microphone_permission_granted: probe.microphone_permission_granted,
        accessibility_permission_granted: probe.accessibility_permission_granted,
        can_start_daemon: can_start,
        startup_state: state,
        repair_reason: reason,
    }
}


/// `Granted` or `Not granted`.
pub open spec fn status_word(granted: bool) -> Seq<char> {
    if granted {
        "Granted"@
    } else {
        "Not granted"@
    }
}

pub fn status_text(granted: bool) -> (r: &'static str)
    ensures
        r@ == status_word(granted),
{
    if granted {
        "Granted"
    } else {
        "Not granted"
    }
}

pub open spec fn ok_word(ok: bool) -> Seq<char> {
    if ok {
        "OK"@
    } else {
        "MISSING"@
    }
}

pub open spec fn model_line(r: ReadinessView) -> Seq<char> {
    match (r.default_model_name, r.default_model_path) {
        (Some(name), Some(path)) => if r.model_installed {
            "Model:          OK      "@ + name + " at "@ + path + "\n"@
        } else {
            "Model:          MISSING "@ + name + " expected at "@ + path + "\n"@
        },
        (Some(name), None) => "Model:          MISSING "@ + name + " has no install path\n"@,
        _ => "Model:          MISSING default model not configured\n"@,
    }
}

pub open spec fn storage_line(r: ReadinessView) -> Seq<char> {
    let free = match r.model_dir_free_bytes {
        Some(b) => bytes_text(b as nat),
        None => "unknown"@,
    };
    let detail = if r.model_dir_writable && r.model_dir_enough_space {
        "writable, "@ + free + " free"@
    } else if !r.model_dir_writable && r.model_dir_enough_space {
        "model directory is not writable, "@ + free + " free"@
    } else if r.model_dir_writable {
        "not enough free space, "@ + free + " available"@
    } else {
        "model directory is not writable, "@ + free + " available"@
    };
    "Storage:        "@ + ok_word(r.model_dir_writable && r.model_dir_enough_space) + " "@ + detail
        + "\n"@
}

pub open spec fn state_word(s: StartupState) -> Seq<char> {
    match s {
        StartupState::Ready => "READY"@,
        StartupState::NeedsSetup => "NEEDS SETUP"@,
        StartupState::NeedsRepair => "NEEDS REPAIR"@,
    }
}

pub open spec fn line_if(cond: bool, line: Seq<char>) -> Seq<char> {
    if cond {
        line
    } else {
        Seq::empty()
    }
}

/// The hints under a report whose daemon cannot start.
pub open spec fn hints(r: ReadinessView) -> Seq<char> {
    "Hints:\n"@ + match (r.model_installed, r.default_model_name) {
        (false, Some(name)) => "- Download the default model: jabberwok download-model "@ + name
            + "\n"@,
        _ => Seq::empty(),
    } + line_if(
        !r.model_dir_writable,
        "- Fix write access to the app support `models/` directory.\n"@,
    ) + line_if(!r.model_dir_enough_space, "- Free disk space before downloading the model.\n"@)
        + line_if(
        !r.microphone_permission_granted,
        "- Grant microphone permission: jabberwok permissions microphone\n"@,
    ) + line_if(
        !r.accessibility_permission_granted,
        "- Grant accessibility permission: jabberwok permissions accessibility\n"@,
    ) + line_if(
        r.startup_state == StartupState::NeedsRepair,
        "- Use `jabberwok reset` for a clean local reset.\n"@,
    )
}

pub open spec fn unparseable_report() -> Seq<char> {
    "Config:         REPAIR  could not parse jabberwok.toml\nModel:          UNKNOWN\nStorage:        UNKNOWN\nMicrophone:     UNKNOWN\nAccessibility:  UNKNOWN\nStartup state:  NEEDS REPAIR\nDaemon ready:   NO\n\nHints:\n- Fix `jabberwok.toml` and run `jabberwok doctor` again.\n- Or use `jabberwok reset` to return to first-run setup.\n"@
}

pub open spec fn permission_lines(r: ReadinessView) -> Seq<char> {
    "Microphone:     "@ + ok_word(r.microphone_permission_granted) + " "@ + status_word(
        r.microphone_permission_granted,
    ) + "\n"@ + "Accessibility:  "@ + ok_word(r.accessibility_permission_granted) + " "@
        + status_word(r.accessibility_permission_granted) + "\n"@
}

pub open spec fn state_lines(r: ReadinessView) -> Seq<char> {
    "Startup state:  "@ + state_word(r.startup_state) + "\n"@ + match r.repair_reason {
        Some(reason) => "Detail:         "@ + reason + "\n"@,
        None => Seq::empty(),
    } + "Daemon ready:   "@ + (if r.can_start_daemon {
        "YES"@
    } else {
        "NO"@
    }) + "\n\n"@
}

pub open spec fn parsed_report(r: ReadinessView) -> Seq<char> {
    "Config:         OK\n"@ + model_line(r) + storage_line(r) + permission_lines(r) + state_lines(r)
        + line_if(!r.can_start_daemon, hints(r))
}

/// The doctor report for a readiness evaluation.
pub open spec fn doctor_report_text(r: ReadinessView) -> Seq<char> {
    "Jabberwok doctor\n\n"@ + if !r.parseable_config {
        unparseable_report()
    } else {
        parsed_report(r)
    }
}

/// A readiness evaluation with its report.
pub struct DoctorReport {
    pub readiness: Readiness,
    pub text: String,
}

fn push_str(out: &mut Vec<char>, s: &str)
    ensures
        final(out)@ == old(out)@ + s@,
{
    push_all(out, chars_of(s).as_slice());
}

fn push_string(out: &mut Vec<char>, s: &String)
    ensures
        final(out)@ == old(out)@ + s@,
{
    push_all(out, chars_of(s.as_str()).as_slice());
}

fn model_line_exec(r: &Readiness) -> (out: Vec<char>)
    ensures
        out@ == model_line(r@),
{
    let mut out: Vec<char> = Vec::new();
    match (&r.default_model_name, &r.default_model_path) {
        (Some(name), Some(path)) => {
            if r.model_installed {
                push_str(&mut out, "Model:          OK      ");
                push_string(&mut out, name);
                push_str(&mut out, " at ");
            } else {
                push_str(&mut out, "Model:          MISSING ");
                push_string(&mut out, name);
                push_str(&mut out, " expected at ");
            }
            push_string(&mut out, path);
            push_str(&mut out, "\n");
        },
        (Some(name), None) => {
            push_str(&mut out, "Model:          MISSING ");
            push_string(&mut out, name);
            push_str(&mut out, " has no install path\n");
        },
        _ => {
            push_str(&mut out, "Model:          MISSING default model not configured\n");
        },
    }
    assert(out@ =~= model_line(r@));
    out
}

fn storage_line_exec(r: &Readiness) -> (out: Vec<char>)
    ensures
        out@ == storage_line(r@),
{
    let free = match r.model_dir_free_bytes {
        Some(b) => format_bytes(b),
        None => "unknown".to_string(),
    };
    let ok = r.model_dir_writable && r.model_dir_enough_space;
    let mut out: Vec<char> = Vec::new();
    push_str(&mut out, "Storage:        ");
    push_str(&mut out, if ok { "OK" } else { "MISSING" });
    push_str(&mut out, " ");
    if ok {
        push_str(&mut out, "writable, ");
        push_string(&mut out, &free);
        push_str(&mut out, " free");
    } else if !r.model_dir_writable && r.model_dir_enough_space {
        push_str(&mut out, "model directory is not writable, ");
        push_string(&mut out, &free);
        push_str(&mut out, " free");
    } else if r.model_dir_writable {
        push_str(&mut out, "not enough free space, ");
        push_string(&mut out, &free);
        push_str(&mut out, " available");
    } else {
        push_str(&mut out, "model directory is not writable, ");
        push_string(&mut out, &free);
        push_str(&mut out, " available");
    }
    push_str(&mut out, "\n");
    assert(out@ =~= storage_line(r@));
    out
}

fn push_if(out: &mut Vec<char>, cond: bool, s: &str)
    ensures
        final(out)@ == old(out)@ + line_if(cond, s@),
{
    if cond {
        push_str(out, s);
    } else {
        assert(old(out)@ + line_if(cond, s@) =~= old(out)@);
    }
}

fn hints_exec(r: &Readiness) -> (out: Vec<char>)
    ensures
        out@ == hints(r@),
{
    let mut out = chars_of("Hints:\n");
    let ghost h0 = out@;
    let mut dl: Vec<char> = Vec::new();
    if !r.model_installed {
        if let Some(name) = &r.default_model_name {
            push_str(&mut dl, "- Download the default model: jabberwok download-model ");
            push_string(&mut dl, name);
            push_str(&mut dl, "\n");
        }
    }
    assert(dl@ =~= match (r@.model_installed, r@.default_model_name) {
        (false, Some(name)) => "- Download the default model: jabberwok download-model "@ + name
            + "\n"@,
        _ => Seq::<char>::empty(),
    });
    push_all(&mut out, dl.as_slice());
    push_if(
        &mut out,
        !r.model_dir_writable,
        "- Fix write access to the app support `models/` directory.\n",
    );
    push_if(&mut out, !r.model_dir_enough_space, "- Free disk space before downloading the model.\n");
    push_if(
        &mut out,
        !r.microphone_permission_granted,
        "- Grant microphone permission: jabberwok permissions microphone\n",
    );
    push_if(
        &mut out,
        !r.accessibility_permission_granted,
        "- Grant accessibility permission: jabberwok permissions accessibility\n",
    );
    push_if(
        &mut out,
        r.startup_state == StartupState::NeedsRepair,
        "- Use `jabberwok reset` for a clean local reset.\n",
    );
    out
}

fn permission_lines_exec(r: &Readiness) -> (out: Vec<char>)
    ensures
        out@ == permission_lines(r@),
{
    let mic = r.microphone_permission_granted;
    let acc = r.accessibility_permission_granted;
    let mut out = chars_of("Microphone:     ");
    push_str(&mut out, if mic { "OK" } else { "MISSING" });
    push_str(&mut out, " ");
    push_str(&mut out, status_text(mic));
    push_str(&mut out, "\n");
    push_str(&mut out, "Accessibility:  ");
    push_str(&mut out, if acc { "OK" } else { "MISSING" });
    push_str(&mut out, " ");
    push_str(&mut out, status_text(acc));
    push_str(&mut out, "\n");
    out
}

fn state_lines_exec(r: &Readiness) -> (out: Vec<char>)
    ensures
        out@ == state_lines(r@),
{
    let mut out = chars_of("Startup state:  ");
    push_str(
        &mut out,
        match r.startup_state {
            StartupState::Ready => "READY",
            StartupState::NeedsSetup => "NEEDS SETUP",
            StartupState::NeedsRepair => "NEEDS REPAIR",
        },
    );
    push_str(&mut out, "\n");
    let mut detail: Vec<char> = Vec::new();
    if let Some(reason) = &r.repair_reason {
        push_str(&mut detail, "Detail:         ");
        push_string(&mut detail, reason);
        push_str(&mut detail, "\n");
    }
    assert(detail@ =~= match r@.repair_reason {
        Some(reason) => "Detail:         "@ + reason + "\n"@,
        None => Seq::<char>::empty(),
    });
    push_all(&mut out, detail.as_slice());
    push_str(&mut out, "Daemon ready:   ");
    push_str(&mut out, if r.can_start_daemon { "YES" } else { "NO" });
    push_str(&mut out, "\n\n");
    out
}

/// The doctor report of a readiness evaluation.
pub fn doctor_report(readiness: Readiness) -> (r: DoctorReport)
    ensures
        r.readiness@ == readiness@,
        r.text@ == doctor_report_text(readiness@),
{
    let mut out = chars_of("Jabberwok doctor\n\n");
    if !readiness.parseable_config {
        push_str(
            &mut out,
            "Config:         REPAIR  could not parse jabberwok.toml\nModel:          UNKNOWN\nStorage:        UNKNOWN\nMicrophone:     UNKNOWN\nAccessibility:  UNKNOWN\nStartup state:  NEEDS REPAIR\nDaemon ready:   NO\n\nHints:\n- Fix `jabberwok.toml` and run `jabberwok doctor` again.\n- Or use `jabberwok reset` to return to first-run setup.\n",
        );
        let text = string_of(out.as_slice());
        return DoctorReport { readiness, text };
    }
    let mut body = chars_of("Config:         OK\n");
    push_all(&mut body, model_line_exec(&readiness).as_slice());
    push_all(&mut body, storage_line_exec(&readiness).as_slice());
    push_all(&mut body, permission_lines_exec(&readiness).as_slice());
    push_all(&mut body, state_lines_exec(&readiness).as_slice());
    let mut h: Vec<char> = Vec::new();
    if !readiness.can_start_daemon {
        h = hints_exec(&readiness);
    }
    assert(h@ =~= line_if(!readiness@.can_start_daemon, hints(readiness@)));
    push_all(&mut body, h.as_slice());
    assert(body@ == parsed_report(readiness@));
    push_all(&mut out, body.as_slice());
    let text = string_of(out.as_slice());
    DoctorReport { readiness, text }
}


/// A permission target name other than `microphone`, `accessibility` and
/// `all`.
#[derive(Debug)]
pub struct UnknownPermissionTarget {
    pub name: String,
}

impl UnknownPermissionTarget {
    pub fn message(&self) -> (r: String)
        ensures
            r@ == "unknown permission target: "@ + self.name@,
    {
        let mut m = chars_of("unknown permission target: ");
        push_string(&mut m, &self.name);
        string_of(m.as_slice())
    }
}

/// The permission targets a name designates.
pub enum PermissionName {
    Microphone,
    Accessibility,
    All,
}

pub open spec fn permission_name(name: Seq<char>) -> Option<PermissionName> {
    if name == "microphone"@ {
        Some(PermissionName::Microphone)
    } else if name == "accessibility"@ {
        Some(PermissionName::Accessibility)
    } else if name == "all"@ {
        Some(PermissionName::All)
    } else {
        None
    }
}

fn is_name(name: &str, w: &str) -> (r: bool)
    ensures
        r == (name@ == w@),
{
    chars_eq(chars_of(name).as_slice(), chars_of(w).as_slice())
}

fn unknown_target(name: &str) -> (r: UnknownPermissionTarget)
    ensures
        r.name@ == name@,
{
    UnknownPermissionTarget { name: name.to_owned() }
}

/// Whether the permissions `name` designates are all granted, given the
/// current state of each.
pub fn permission_already_granted(name: &str, microphone: bool, accessibility: bool) -> (r: Result<
    bool,
    UnknownPermissionTarget,
>)
    ensures
        match r {
            Ok(g) => match permission_name(name@) {
                Some(PermissionName::Microphone) => g == microphone,
                Some(PermissionName::Accessibility) => g == accessibility,
                Some(PermissionName::All) => g == (microphone && accessibility),
                None => false,
            },
            Err(e) => permission_name(name@) is None && e.name@ == name@,
        },
{
    if is_name(name, "microphone") {
        Ok(microphone)
    } else if is_name(name, "accessibility") {
        Ok(accessibility)
    } else if is_name(name, "all") {
        Ok(microphone && accessibility)
    } else {
        Err(unknown_target(name))
    }
}

/// What to do to request the permissions a target names.
#[derive(Debug, Clone, Copy, PartialEq, Eq)]
pub struct PermissionRequest {
    /// Start the microphone permission prompt.
    pub request_microphone: bool,
    /// Open the Accessibility page of System Settings.
    pub open_accessibility_settings: bool,
}

/// The requests for `name`: the microphone prompt for `microphone`, the
/// Accessibility settings for `accessibility`, both for `all`.
pub fn request_permission(name: &str) -> (r: Result<PermissionRequest, UnknownPermissionTarget>)
    ensures
        match r {
            Ok(req) => match permission_name(name@) {
                Some(PermissionName::Microphone) => req.request_microphone
                    && !req.open_accessibility_settings,
                Some(PermissionName::Accessibility) => !req.request_microphone
                    && req.open_accessibility_settings,
                Some(PermissionName::All) => req.request_microphone
                    && req.open_accessibility_settings,
                None => false,
            },
            Err(e) => permission_name(name@) is None && e.name@ == name@,
        },
{
    if is_name(name, "microphone") {
        Ok(PermissionRequest { request_microphone: true, open_accessibility_settings: false })
    } else if is_name(name, "accessibility") {
        Ok(PermissionRequest { request_microphone: false, open_accessibility_settings: true })
    } else if is_name(name, "all") {
        Ok(PermissionRequest { request_microphone: true, open_accessibility_settings: true })
    } else {
        Err(unknown_target(name))
    }
}

pub open spec fn exe_text(o: Option<Seq<char>>) -> Seq<char> {
    match o {
        Some(p) => p,
        None => "<unknown>"@,
    }
}

/// The lines explaining an Accessibility request; `first` opens them.
pub open spec fn accessibility_lines(
    first: Seq<char>,
    current: Seq<char>,
    agent: Option<Seq<char>>,
) -> Seq<Seq<char>> {
    seq![
        first,
        "macOS does not allow Jabberwok to add or grant Accessibility permission automatically."@,
        "Current executable: "@ + current,
    ] + match agent {
        Some(a) => if a != current {
            seq!["LaunchAgent executable: "@ + a]
        } else {
            Seq::empty()
        },
        None => Seq::empty(),
    } + seq![
        "Use the + button in System Settings if needed, add the executable you actually run, and enable it."@,
    ]
}

/// What the user is told after a permission request, given the running
/// executable and the LaunchAgent's executable when they are known.
pub open spec fn request_instructions(
    name: Seq<char>,
    current_exe: Option<Seq<char>>,
    launch_agent_exe: Option<Seq<char>>,
) -> Option<Seq<char>> {
    let current = exe_text(current_exe);
    match permission_name(name) {
        Some(PermissionName::Microphone) => Some(
            "Requested microphone permission flow.\nCurrent executable: "@ + current,
        ),
        Some(PermissionName::Accessibility) => Some(
            join(
                accessibility_lines("Opened Accessibility settings."@, current, launch_agent_exe),
                "\n"@,
            ),
        ),
        Some(PermissionName::All) => Some(
            join(
                accessibility_lines(
                    "Requested microphone permission flow and opened Accessibility settings."@,
                    current,
                    launch_agent_exe,
                ),
                "\n"@,
            ),
        ),
        None => None,
    }
}

fn push_line_str(lines: &mut Vec<String>, v: Vec<char>)
    ensures
        string_views(final(lines)@) == string_views(old(lines)@).push(v@),
{
    let ghost before = lines@;
    lines.push(string_of(v.as_slice()));
    assert(string_views(lines@) =~= string_views(before).push(v@));
}

fn accessibility_text(first: &str, current: &String, agent: &Option<String>) -> (r: String)
    ensures
        r@ == join(accessibility_lines(first@, current@, opt_view(*agent)), "\n"@),
{
    let mut lines: Vec<String> = Vec::new();
    push_line_str(&mut lines, chars_of(first));
    push_line_str(
        &mut lines,
        chars_of(
            "macOS does not allow Jabberwok to add or grant Accessibility permission automatically.",
        ),
    );
    let mut cur = chars_of("Current executable: ");
    push_string(&mut cur, current);
    push_line_str(&mut lines, cur);
    let ghost base = string_views(lines@);
    if let Some(a) = agent {
        if !chars_eq(chars_of(a.as_str()).as_slice(), chars_of(current.as_str()).as_slice()) {
            let mut l = chars_of("LaunchAgent executable: ");
            push_string(&mut l, a);
            push_line_str(&mut lines, l);
        }
    }
    push_line_str(
        &mut lines,
        chars_of(
            "Use the + button in System Settings if needed, add the executable you actually run, and enable it.",
        ),
    );
    assert(string_views(lines@) =~= accessibility_lines(first@, current@, opt_view(*agent)));
    string_of(join_strings(lines.as_slice(), "\n").as_slice())
}

/// The instructions shown after requesting the permissions `name` names.
pub fn permission_request_instructions(
    name: &str,
    current_exe: Option<String>,
    launch_agent_exe: Option<String>,
) -> (r: Result<String, UnknownPermissionTarget>)
    ensures
        match r {
            Ok(text) => request_instructions(name@, opt_view(current_exe), opt_view(launch_agent_exe))
                == Some(text@),
            Err(e) => request_instructions(name@, opt_view(current_exe), opt_view(launch_agent_exe))
                is None && e.name@ == name@,
        },
{
    let current = match current_exe {
        Some(c) => c,
        None => "<unknown>".to_string(),
    };
    if is_name(name, "microphone") {
        let mut m = chars_of("Requested microphone permission flow.\nCurrent executable: ");
        push_string(&mut m, &current);
        Ok(string_of(m.as_slice()))
    } else if is_name(name, "accessibility") {
        Ok(accessibility_text("Opened Accessibility settings.", &current, &launch_agent_exe))
    } else if is_name(name, "all") {
        Ok(
            accessibility_text(
                "Requested microphone permission flow and opened Accessibility settings.",
                &current,
                &launch_agent_exe,
            ),
        )
    } else {
        Err(unknown_target(name))
    }
}

/// The permission kind a target name designates, as the permission store
/// names it.
pub open spec fn permission_kind_of(name: Seq<char>) -> Option<Seq<char>> {
    match permission_name(name) {
        Some(PermissionName::Microphone) => Some("Microphone"@),
        Some(PermissionName::Accessibility) => Some("Accessibility"@),
        Some(PermissionName::All) => Some("All"@),
        None => None,
    }
}

pub fn permission_kind(name: &str) -> (r: Result<&'static str, UnknownPermissionTarget>)
    ensures
        match r {
            Ok(k) => permission_kind_of(name@) == Some(k@),
            Err(e) => permission_kind_of(name@) is None && e.name@ == name@,
        },
{
    if is_name(name, "microphone") {
        Ok("Microphone")
    } else if is_name(name, "accessibility") {
        Ok("Accessibility")
    } else if is_name(name, "all") {
        Ok("All")
    } else {
        Err(unknown_target(name))
    }
}

/// What the user is told after the stored state of permission `kind`
/// (named `name` on the command line) was cleared.
pub open spec fn removal_text(name: Seq<char>, kind: Seq<char>, running_bundled_app: bool) -> Seq<
    char,
> {
    let followup = if running_bundled_app {
        "This reset targets the bundled Jabberwok app identity. If the permission still appears granted, open System Settings > Privacy & Security > "@
            + kind + " and toggle Jabberwok off, then re-run `jabberwok doctor`."@
    } else {
        "This reset targets the bundled Jabberwok app identity, but `cargo run` usually inherits "@
            + kind
            + " permission from your terminal app.\nOpen System Settings > Privacy & Security > "@
            + kind + " and toggle Terminal or WezTerm off, then re-run `jabberwok doctor`."@
    };
    "Cleared "@ + name
        + " state. This is a debug-only local reset and may still require a reboot.\n"@
        + followup
}

pub fn removal_message(name: &str, kind: &str, running_bundled_app: bool) -> (r: String)
    ensures
        r@ == removal_text(name@, kind@, running_bundled_app),
{
    let k = chars_of(kind);
    let mut m = chars_of("Cleared ");
    push_all(&mut m, chars_of(name).as_slice());
    push_str(
        &mut m,
        " state. This is a debug-only local reset and may still require a reboot.\n",
    );
    let mut f: Vec<char>;
    if running_bundled_app {
        f = chars_of(
            "This reset targets the bundled Jabberwok app identity. If the permission still appears granted, open System Settings > Privacy & Security > ",
        );
        push_all(&mut f, k.as_slice());
        push_str(&mut f, " and toggle Jabberwok off, then re-run `jabberwok doctor`.");
    } else {
        f = chars_of(
            "This reset targets the bundled Jabberwok app identity, but `cargo run` usually inherits ",
        );
        push_all(&mut f, k.as_slice());
        push_str(
            &mut f,
            " permission from your terminal app.\nOpen System Settings > Privacy & Security > ",
        );
        push_all(&mut f, k.as_slice());
        push_str(&mut f, " and toggle Terminal or WezTerm off, then re-run `jabberwok doctor`.");
    }
    push_all(&mut m, f.as_slice());
    string_of(m.as_slice())
}

/// The summary of a reset: what was removed, and where fresh defaults will
/// come from.
pub open spec fn reset_summary(config_file: Seq<char>, removed: Seq<Seq<char>>) -> Seq<char> {
    join(
        seq!["Reset Jabberwok local data."@] + (if removed.len() == 0 {
            seq!["No local config, models, or logs were present."@]
        } else {
            seq!["Removed:"@] + removed.map_values(|p: Seq<char>| "- "@ + p)
        }) + seq!["Next launch will bootstrap fresh defaults from "@ + config_file + "."@],
        "\n"@,
    )
}

pub fn describe_reset_result(config_file: &str, removed: &[String]) -> (r: String)
    ensures
        r@ == reset_summary(config_file@, string_views(removed@)),
{
    let ghost rv = string_views(removed@);
    let mut lines: Vec<String> = Vec::new();
    push_line_str(&mut lines, chars_of("Reset Jabberwok local data."));
    if removed.len() == 0 {
        push_line_str(&mut lines, chars_of("No local config, models, or logs were present."));
    } else {
        push_line_str(&mut lines, chars_of("Removed:"));
        let ghost base = string_views(lines@);
        let mut i: usize = 0;
        while i < removed.len()
            invariant
                i <= removed@.len(),
                rv == string_views(removed@),
                string_views(lines@) == base + rv.take(i as int).map_values(
                    |p: Seq<char>| "- "@ + p,
                ),
            decreases removed@.len() - i,
        {
            let mut l = chars_of("- ");
            push_string(&mut l, &removed[i]);
            push_line_str(&mut lines, l);
            assert(rv.take(i as int + 1).map_values(|p: Seq<char>| "- "@ + p) =~= rv.take(
                i as int,
            ).map_values(|p: Seq<char>| "- "@ + p).push("- "@ + removed@[i as int]@));
            i = i + 1;
        }
        assert(rv.take(removed@.len() as int) =~= rv);
    }
    let mut last = chars_of("Next launch will bootstrap fresh defaults from ");
    push_all(&mut last, chars_of(config_file).as_slice());
    push_str(&mut last, ".");
    push_line_str(&mut lines, last);
    assert(string_views(lines@) =~= seq!["Reset Jabberwok local data."@] + (if rv.len() == 0 {
        seq!["No local config, models, or logs were present."@]
    } else {
        seq!["Removed:"@] + rv.map_values(|p: Seq<char>| "- "@ + p)
    }) + seq!["Next launch will bootstrap fresh defaults from "@ + config_file@ + "."@]);
    string_of(join_strings(lines.as_slice(), "\n").as_slice())
}


/// Readiness is consistent: the daemon can start exactly when the state is
/// `Ready`, and exactly then no explanation is given; an unparseable
/// configuration always needs repair.
pub proof fn lemma_readiness_consistent(
    config_path: Seq<char>,
    models: Option<CatalogView>,
    probe: ReadinessProbe,
)
    ensures
        ({
            let r = readiness_of(config_path, models, probe);
            &&& r.can_start_daemon <==> r.startup_state == StartupState::Ready
            &&& r.can_start_daemon <==> r.repair_reason is None
            &&& r.can_start_daemon ==> r.model_installed && r.microphone_permission_granted
                && r.accessibility_permission_granted && r.model_dir_writable
                && r.model_dir_enough_space && r.default_model_name is Some
            &&& !r.parseable_config ==> r.startup_state == StartupState::NeedsRepair
        }),
{
}

/// Byte counts below 2^53 are held exactly by an `f64`, so the text is the
/// exact count rounded to one decimal.
pub proof fn lemma_exact_below_2_53(b: nat)
    requires
        b < 0x20_0000_0000_0000,
    ensures
        f64_value(b) == b,
{
    assert(dropped_bits(b) == 0);
    assert(two_to(0) == 1);
}


/// The doctor report's text.
pub fn doctor_text(readiness: Readiness) -> (r: String)
    ensures
        r@ == doctor_report_text(readiness@),
{
    doctor_report(readiness).text
}

/// What removing a permission's stored state does: the permission kind to
/// clear, and the message shown afterwards.
#[derive(Debug)]
pub struct PermissionRemoval {
    pub kind: &'static str,
    pub message: String,
}

/// Why permission state cannot be removed.
#[derive(Debug)]
pub enum RemovalError {
    /// Removal exists in debug builds only.
    DebugOnly,
    Unknown(UnknownPermissionTarget),
}

impl RemovalError {
    pub fn message(&self) -> (r: String)
        ensures
            self matches RemovalError::DebugOnly ==> r@
                == "--remove is debug-only; rebuild with debug to use it"@,
            self matches RemovalError::Unknown(e) ==> r@ == "unknown permission target: "@
                + e.name@,
    {
        match self {
            RemovalError::DebugOnly => "--remove is debug-only; rebuild with debug to use it".to_string(),
            RemovalError::Unknown(e) => e.message(),
        }
    }
}

/// Plans the removal of the stored state of the permissions `name`
/// designates; only debug builds offer it.
pub fn remove_permissions(name: &str, running_bundled_app: bool, debug_build: bool) -> (r: Result<
    PermissionRemoval,
    RemovalError,
>)
    ensures
        match r {
            Ok(p) => debug_build && permission_kind_of(name@) == Some(p.kind@) && p.message@
                == removal_text(name@, p.kind@, running_bundled_app),
            Err(RemovalError::DebugOnly) => !debug_build,
            Err(RemovalError::Unknown(e)) => debug_build && permission_kind_of(name@) is None
                && e.name@ == name@,
        },
{
    if !debug_build {
        return Err(RemovalError::DebugOnly);
    }
    match permission_kind(name) {
        Ok(kind) => Ok(PermissionRemoval { kind, message: removal_message(name, kind, running_bundled_app) }),
        Err(e) => Err(RemovalError::Unknown(e)),
    }
}

} // verus!
