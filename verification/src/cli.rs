//! The command line: its grammar, the parsed commands, and the help text.
use vstd::prelude::*;
use crate::config::schema::opt_view;
use crate::text::{
    chars_eq, chars_of, parse_u64, parse_u64_chars, push_all, split_once, split_once_chars,
    starts_with, starts_with_chars, string_of, string_views, sub_vec, views,
};

verus! {

/// The subcommands, in the order the help text lists them.
#[derive(Clone, Copy, Debug, PartialEq, Eq, Structural)]
pub enum CmdKind {
    Daemon,
    ListDevices,
    Record,
    SelectDevice,
    DownloadModel,
    Transcribe,
    Type,
    Setup,
    Tutorial,
    Doctor,
    Permissions,
    LaunchAgent,
    Reset,
}

/// What an option or positional argument accepts.
#[derive(Clone, Copy, Debug, PartialEq, Eq, Structural)]
pub enum ValueKind {
    /// A switch: present or absent, never given a value.
    Switch,
    /// Any string, the empty one included.
    Text,
    /// A non-empty path.
    Path,
    /// A `u64`.
    Count,
    /// A `u32` process id.
    Pid,
    /// `microphone`, `accessibility` or `all`.
    Permission,
    /// `install`, `uninstall` or `status`.
    AgentAction,
}

/// Kinds of parse outcomes other than a command.
#[derive(Clone, Copy, Debug, PartialEq, Eq, Structural)]
pub enum ErrorKind {
    /// `--help`, `-h` or the `help` subcommand: print help and exit.
    DisplayHelp,
    /// `--version` or `-V`: print the version and exit.
    DisplayVersion,
    /// The first argument names no subcommand.
    InvalidSubcommand,
    /// An option the subcommand does not have, or a surplus positional.
    UnknownArgument,
    /// A value outside the accepted ones, or a missing value.
    InvalidValue,
    /// A number that does not parse or is out of range.
    ValueValidation,
    /// An option given twice.
    ArgumentConflict,
    /// A value given to a switch.
    TooManyValues,
    /// A required positional argument is missing.
    MissingRequiredArgument,
}

#[derive(Clone, Copy, Debug, PartialEq, Eq, Structural)]
pub enum PermissionTarget {
    Microphone,
    Accessibility,
    All,
}

#[derive(Clone, Copy, Debug, PartialEq, Eq, Structural)]
pub enum LaunchAgentAction {
    Install,
    Uninstall,
    Status,
}

/// A parsed subcommand with its arguments; paths are kept as strings.
#[derive(Debug, PartialEq, Eq)]
pub enum Commands {
    Daemon { model: Option<String>, config: Option<String>, save_utterances: bool },
    ListDevices { config: Option<String> },
    Record { output: String, duration: u64 },
    SelectDevice {
        input: Option<String>,
        output: Option<String>,
        host: Option<String>,
        config: Option<String>,
    },
    DownloadModel { model: Option<String>, config: Option<String>, models_dir: Option<String> },
    Transcribe {
        model: Option<String>,
        config: Option<String>,
        file: Option<String>,
        duration: u64,
        inject: bool,
        save_utterances: bool,
    },
    Type { text: String },
    Setup { config: Option<String> },
    Tutorial { config: Option<String> },
    Doctor { config: Option<String> },
    Permissions { target: PermissionTarget, remove: bool },
    LaunchAgent { action: LaunchAgentAction },
    Reset { config: Option<String>, wait_for_pid: Option<u32>, relaunch: bool },
}

/// `Commands` with its strings taken by their characters.
pub enum CommandView {
    Daemon { model: Option<Seq<char>>, config: Option<Seq<char>>, save_utterances: bool },
    ListDevices { config: Option<Seq<char>> },
    Record { output: Seq<char>, duration: nat },
    SelectDevice {
        input: Option<Seq<char>>,
        output: Option<Seq<char>>,
        host: Option<Seq<char>>,
        config: Option<Seq<char>>,
    },
    DownloadModel {
        model: Option<Seq<char>>,
        config: Option<Seq<char>>,
        models_dir: Option<Seq<char>>,
    },
    Transcribe {
        model: Option<Seq<char>>,
        config: Option<Seq<char>>,
        file: Option<Seq<char>>,
        duration: nat,
        inject: bool,
        save_utterances: bool,
    },
    Type { text: Seq<char> },
    Setup { config: Option<Seq<char>> },
    Tutorial { config: Option<Seq<char>> },
    Doctor { config: Option<Seq<char>> },
    Permissions { target: PermissionTarget, remove: bool },
    LaunchAgent { action: LaunchAgentAction },
    Reset { config: Option<Seq<char>>, wait_for_pid: Option<nat>, relaunch: bool },
}

impl View for Commands {
    type V = CommandView;

    open spec fn view(&self) -> CommandView {
        match self {
            Commands::Daemon { model, config, save_utterances } => CommandView::Daemon {
                model: opt_view(*model),
                config: opt_view(*config),
                save_utterances: *save_utterances,
            },
            Commands::ListDevices { config } => CommandView::ListDevices {
                config: opt_view(*config),
            },
            Commands::Record { output, duration } => CommandView::Record {
                output: output@,
                duration: *duration as nat,
            },
            Commands::SelectDevice { input, output, host, config } => CommandView::SelectDevice {
                input: opt_view(*input),
                output: opt_view(*output),
                host: opt_view(*host),
                config: opt_view(*config),
            },
            Commands::DownloadModel { model, config, models_dir } => CommandView::DownloadModel {
                model: opt_view(*model),
                config: opt_view(*config),
                models_dir: opt_view(*models_dir),
            },
            Commands::Transcribe { model, config, file, duration, inject, save_utterances } =>
            CommandView::Transcribe {
                model: opt_view(*model),
                config: opt_view(*config),
                file: opt_view(*file),
                duration: *duration as nat,
                inject: *inject,
                save_utterances: *save_utterances,
            },
            Commands::Type { text } => CommandView::Type { text: text@ },
            Commands::Setup { config } => CommandView::Setup { config: opt_view(*config) },
            Commands::Tutorial { config } => CommandView::Tutorial { config: opt_view(*config) },
            Commands::Doctor { config } => CommandView::Doctor { config: opt_view(*config) },
            Commands::Permissions { target, remove } => CommandView::Permissions {
                target: *target,
                remove: *remove,
            },
            Commands::LaunchAgent { action } => CommandView::LaunchAgent { action: *action },
            Commands::Reset { config, wait_for_pid, relaunch } => CommandView::Reset {
                config: opt_view(*config),
                wait_for_pid: match wait_for_pid {
                    Some(p) => Some(*p as nat),
                    None => None,
                },
                relaunch: *relaunch,
            },
        }
    }
}

/// The parsed command line: a subcommand, or none.
#[derive(Debug, PartialEq, Eq)]
pub struct Cli {
    pub command: Option<Commands>,
}

pub open spec fn cli_view(c: Option<Commands>) -> Option<CommandView> {
    match c {
        Some(cmd) => Some(cmd@),
        None => None,
    }
}

/// A command line that yields no command, with the argument at fault.
#[derive(Debug)]
pub struct CliError {
    pub kind: ErrorKind,
    pub arg: String,
}

impl CliError {
    pub fn kind(&self) -> (r: ErrorKind)
        ensures
            r == self.kind,
    {
        self.kind
    }
}

/// An option of a subcommand: its long name, its short letter, and what
/// it accepts.
pub struct OptSpec {
    pub long: Seq<char>,
    pub short: Option<char>,
    pub kind: ValueKind,
}

pub open spec fn opt(long: Seq<char>, short: Option<char>, kind: ValueKind) -> OptSpec {
    OptSpec { long, short, kind }
}

/// The options of each subcommand.
pub open spec fn options(cmd: CmdKind) -> Seq<OptSpec> {
    match cmd {
        CmdKind::Daemon => seq![
            opt("model"@, Some('m'), ValueKind::Path),
            opt("config"@, None, ValueKind::Path),
            opt("save-utterances"@, None, ValueKind::Switch),
        ],
        CmdKind::Record => seq![
            opt("output"@, Some('o'), ValueKind::Path),
            opt("duration"@, Some('d'), ValueKind::Count),
        ],
        CmdKind::SelectDevice => seq![
            opt("input"@, None, ValueKind::Text),
            opt("output"@, None, ValueKind::Text),
            opt("host"@, None, ValueKind::Text),
            opt("config"@, None, ValueKind::Path),
        ],
        CmdKind::DownloadModel => seq![
            opt("config"@, None, ValueKind::Path),
            opt("models-dir"@, Some('m'), ValueKind::Path),
        ],
        CmdKind::Transcribe => seq![
            opt("model"@, Some('m'), ValueKind::Path),
            opt("config"@, None, ValueKind::Path),
            opt("file"@, Some('f'), ValueKind::Path),
            opt("duration"@, Some('d'), ValueKind::Count),
            opt("input"@, None, ValueKind::Switch),
            opt("save-utterances"@, None, ValueKind::Switch),
        ],
        CmdKind::Type => seq![],
        CmdKind::Permissions => seq![opt("remove"@, None, ValueKind::Switch)],
        CmdKind::LaunchAgent => seq![],
        CmdKind::Reset => seq![
            opt("config"@, None, ValueKind::Path),
            opt("wait-for-pid"@, None, ValueKind::Pid),
            opt("relaunch"@, None, ValueKind::Switch),
        ],
        _ => seq![opt("config"@, None, ValueKind::Path)],
    }
}

/// The positional argument of a subcommand, if it has one: what it
/// accepts and whether it is required.
pub open spec fn positional(cmd: CmdKind) -> Option<(ValueKind, bool)> {
    match cmd {
        CmdKind::DownloadModel => Some((ValueKind::Text, false)),
        CmdKind::Type => Some((ValueKind::Text, true)),
        CmdKind::Permissions => Some((ValueKind::Permission, true)),
        CmdKind::LaunchAgent => Some((ValueKind::AgentAction, true)),
        _ => None,
    }
}

/// The name under which a subcommand is invoked.
pub open spec fn command_name(cmd: CmdKind) -> Seq<char> {
    match cmd {
        CmdKind::Daemon => "daemon"@,
        CmdKind::ListDevices => "list-devices"@,
        CmdKind::Record => "record"@,
        CmdKind::SelectDevice => "select-device"@,
        CmdKind::DownloadModel => "download-model"@,
        CmdKind::Transcribe => "transcribe"@,
        CmdKind::Type => "type"@,
        CmdKind::Setup => "setup"@,
        CmdKind::Tutorial => "tutorial"@,
        CmdKind::Doctor => "doctor"@,
        CmdKind::Permissions => "permissions"@,
        CmdKind::LaunchAgent => "launch-agent"@,
        CmdKind::Reset => "reset"@,
    }
}

/// All subcommands, in help order.
pub open spec fn all_commands() -> Seq<CmdKind> {
    seq![
        CmdKind::Daemon,
        CmdKind::ListDevices,
        CmdKind::Record,
        CmdKind::SelectDevice,
        CmdKind::DownloadModel,
        CmdKind::Transcribe,
        CmdKind::Type,
        CmdKind::Setup,
        CmdKind::Tutorial,
        CmdKind::Doctor,
        CmdKind::Permissions,
        CmdKind::LaunchAgent,
        CmdKind::Reset,
    ]
}

/// The first subcommand, from position `k` of `cmds` on, invoked as `name`.
pub open spec fn find_command(cmds: Seq<CmdKind>, name: Seq<char>, k: int) -> Option<CmdKind>
    decreases cmds.len() - k,
{
    if k < 0 || k >= cmds.len() {
        None
    } else if command_name(cmds[k]) == name {
        Some(cmds[k])
    } else {
        find_command(cmds, name, k + 1)
    }
}

/// The subcommand invoked as `name`.
pub open spec fn command_named(name: Seq<char>) -> Option<CmdKind> {
    find_command(all_commands(), name, 0)
}

/// Whether a token is an option rather than a value: it starts with `-`
/// and is not `-` alone.
pub open spec fn is_flag_token(t: Seq<char>) -> bool {
    t.len() > 1 && t[0] == '-'
}

pub open spec fn is_permission(v: Seq<char>) -> bool {
    v == "microphone"@ || v == "accessibility"@ || v == "all"@
}

pub open spec fn is_agent_action(v: Seq<char>) -> bool {
    v == "install"@ || v == "uninstall"@ || v == "status"@
}

/// The error a value draws for an argument of kind `kind`, if any.
pub open spec fn value_error(kind: ValueKind, v: Seq<char>) -> Option<ErrorKind> {
    match kind {
        ValueKind::Path => if v.len() == 0 {
            Some(ErrorKind::InvalidValue)
        } else {
            None
        },
        ValueKind::Count => if parse_u64(v) is Some {
            None
        } else {
            Some(ErrorKind::ValueValidation)
        },
        ValueKind::Pid => if parse_u64(v) matches Some(n) && n <= u32::MAX {
            None
        } else {
            Some(ErrorKind::ValueValidation)
        },
        ValueKind::Permission => if is_permission(v) {
            None
        } else {
            Some(ErrorKind::InvalidValue)
        },
        ValueKind::AgentAction => if is_agent_action(v) {
            None
        } else {
            Some(ErrorKind::InvalidValue)
        },
        _ => None,
    }
}

/// What the scan of a subcommand's arguments has gathered: the value of
/// each option (a switch holds `true`), the positional argument, and
/// whether `--` was seen.
#[verifier::ext_equal]
pub struct Scanned {
    pub vals: Seq<Option<Seq<char>>>,
    pub pos: Option<Seq<char>>,
    pub dashdash: bool,
}

pub open spec fn initial_scan(cmd: CmdKind) -> Scanned {
    Scanned {
        vals: Seq::new(options(cmd).len(), |k: int| None),
        pos: None,
        dashdash: false,
    }
}

/// Position of the first option, from `k` on, whose long name is `name`.
pub open spec fn find_long(os: Seq<OptSpec>, name: Seq<char>, k: int) -> Option<nat>
    decreases os.len() - k,
{
    if k < 0 || k >= os.len() {
        None
    } else if os[k].long == name {
        Some(k as nat)
    } else {
        find_long(os, name, k + 1)
    }
}

/// Position of the first option, from `k` on, whose short letter is `c`.
pub open spec fn find_short(os: Seq<OptSpec>, c: char, k: int) -> Option<nat>
    decreases os.len() - k,
{
    if k < 0 || k >= os.len() {
        None
    } else if os[k].short == Some(c) {
        Some(k as nat)
    } else {
        find_short(os, c, k + 1)
    }
}

pub open spec fn long_index(cmd: CmdKind, name: Seq<char>) -> Option<nat> {
    find_long(options(cmd), name, 0)
}

pub open spec fn short_index(cmd: CmdKind, c: char) -> Option<nat> {
    find_short(options(cmd), c, 0)
}

pub type ScanStep = Result<(nat, Scanned), (ErrorKind, Seq<char>)>;

/// A positional token.
pub open spec fn take_positional(cmd: CmdKind, st: Scanned, t: Seq<char>) -> ScanStep {
    match positional(cmd) {
        None => Err((ErrorKind::UnknownArgument, t)),
        Some((kind, _)) => if st.pos is Some {
            Err((ErrorKind::UnknownArgument, t))
        } else {
            match value_error(kind, t) {
                Some(e) => Err((e, t)),
                None => Ok((1, Scanned { pos: Some(t), ..st })),
            }
        },
    }
}

/// Option number `k`, named by token `t`, with the value written inside the
/// token if any; a value option otherwise takes the next token.
pub open spec fn take_option(
    cmd: CmdKind,
    toks: Seq<Seq<char>>,
    i: int,
    st: Scanned,
    k: nat,
    inline: Option<Seq<char>>,
    t: Seq<char>,
) -> ScanStep {
    let o = options(cmd)[k as int];
    if st.vals[k as int] is Some {
        Err((ErrorKind::ArgumentConflict, t))
    } else if o.kind == ValueKind::Switch {
        if inline is Some {
            Err((ErrorKind::TooManyValues, t))
        } else {
            Ok((1, Scanned { vals: st.vals.update(k as int, Some("true"@)), ..st }))
        }
    } else {
        let (value, used): (Seq<char>, nat) = match inline {
            Some(v) => (v, 1),
            None => if i + 1 < toks.len() && !is_flag_token(toks[i + 1]) {
                (toks[i + 1], 2)
            } else {
                (Seq::empty(), 0)
            },
        };
        if used == 0 {
            Err((ErrorKind::InvalidValue, t))
        } else {
            match value_error(o.kind, value) {
                Some(e) => Err((e, value)),
                None => Ok((used, Scanned { vals: st.vals.update(k as int, Some(value)), ..st })),
            }
        }
    }
}

/// One step of the scan at token `i`: how many tokens it used and the new
/// state, or the error it met.
pub open spec fn scan_step(cmd: CmdKind, toks: Seq<Seq<char>>, i: int, st: Scanned) -> ScanStep {
    let t = toks[i];
    if st.dashdash {
        take_positional(cmd, st, t)
    } else if t == "--"@ {
        Ok((1, Scanned { dashdash: true, ..st }))
    } else if t == "--help"@ || t == "-h"@ {
        Err((ErrorKind::DisplayHelp, t))
    } else if starts_with(t, "--"@) {
        let body = t.skip(2);
        let (name, inline) = match split_once(body, '=') {
            Some((n, v)) => (n, Some(v)),
            None => (body, None),
        };
        match long_index(cmd, name) {
            None => Err((ErrorKind::UnknownArgument, t)),
            Some(k) => take_option(cmd, toks, i, st, k, inline, t),
        }
    } else if is_flag_token(t) {
        match short_index(cmd, t[1]) {
            None => Err((ErrorKind::UnknownArgument, t)),
            Some(k) => {
                let inline = if t.len() > 2 {
                    let rest = t.skip(2);
                    Some(
                        if rest[0] == '=' {
                            rest.drop_first()
                        } else {
                            rest
                        },
                    )
                } else {
                    None
                };
                take_option(cmd, toks, i, st, k, inline, t)
            },
        }
    } else {
        take_positional(cmd, st, t)
    }
}

/// The scan of the tokens from position `i` on.
pub open spec fn scan(cmd: CmdKind, toks: Seq<Seq<char>>, i: int, st: Scanned) -> Result<
    Scanned,
    (ErrorKind, Seq<char>),
>
    decreases toks.len() - i,
{
    if i < 0 || i >= toks.len() {
        Ok(st)
    } else {
        match scan_step(cmd, toks, i, st) {
            Err(e) => Err(e),
            Ok((n, next)) => if n >= 1 {
                let j = if i + n > toks.len() {
                    toks.len() as int
                } else {
                    i + n
                };
                scan(cmd, toks, j, next)
            } else {
                Ok(next)
            },
        }
    }
}

pub open spec fn permission_of(v: Seq<char>) -> PermissionTarget {
    if v == "microphone"@ {
        PermissionTarget::Microphone
    } else if v == "accessibility"@ {
        PermissionTarget::Accessibility
    } else {
        PermissionTarget::All
    }
}

pub open spec fn agent_action_of(v: Seq<char>) -> LaunchAgentAction {
    if v == "install"@ {
        LaunchAgentAction::Install
    } else if v == "uninstall"@ {
        LaunchAgentAction::Uninstall
    } else {
        LaunchAgentAction::Status
    }
}

/// A count option's value, `default` when absent.
pub open spec fn count_or(v: Option<Seq<char>>, default: nat) -> nat {
    match v {
        Some(s) => match parse_u64(s) {
            Some(n) => n,
            None => default,
        },
        None => default,
    }
}

pub open spec fn pid_of(v: Option<Seq<char>>) -> Option<nat> {
    match v {
        Some(s) => match parse_u64(s) {
            Some(n) => if n <= u32::MAX {
                Some(n)
            } else {
                None
            },
            None => None,
        },
        None => None,
    }
}

/// The command a completed scan describes, or the missing argument.
pub open spec fn build(cmd: CmdKind, st: Scanned) -> Result<CommandView, (ErrorKind, Seq<char>)> {
    let v = st.vals;
    match cmd {
        CmdKind::Daemon => Ok(
            CommandView::Daemon { model: v[0], config: v[1], save_utterances: v[2] is Some },
        ),
        CmdKind::ListDevices => Ok(CommandView::ListDevices { config: v[0] }),
        CmdKind::Record => Ok(
            CommandView::Record {
                output: match v[0] {
                    Some(o) => o,
                    None => "recording.wav"@,
                },
                duration: count_or(v[1], 5),
            },
        ),
        CmdKind::SelectDevice => Ok(
            CommandView::SelectDevice { input: v[0], output: v[1], host: v[2], config: v[3] },
        ),
        CmdKind::DownloadModel => Ok(
            CommandView::DownloadModel { model: st.pos, config: v[0], models_dir: v[1] },
        ),
        CmdKind::Transcribe => Ok(
            CommandView::Transcribe {
                model: v[0],
                config: v[1],
                file: v[2],
                duration: count_or(v[3], 5),
                inject: v[4] is Some,
                save_utterances: v[5] is Some,
            },
        ),
        CmdKind::Type => match st.pos {
            Some(t) => Ok(CommandView::Type { text: t }),
            None => Err((ErrorKind::MissingRequiredArgument, "<TEXT>"@)),
        },
        CmdKind::Setup => Ok(CommandView::Setup { config: v[0] }),
        CmdKind::Tutorial => Ok(CommandView::Tutorial { config: v[0] }),
        CmdKind::Doctor => Ok(CommandView::Doctor { config: v[0] }),
        CmdKind::Permissions => match st.pos {
            Some(t) => Ok(CommandView::Permissions { target: permission_of(t), remove: v[0] is Some }),
            None => Err((ErrorKind::MissingRequiredArgument, "<TARGET>"@)),
        },
        CmdKind::LaunchAgent => match st.pos {
            Some(t) => Ok(CommandView::LaunchAgent { action: agent_action_of(t) }),
            None => Err((ErrorKind::MissingRequiredArgument, "<ACTION>"@)),
        },
        CmdKind::Reset => Ok(
            CommandView::Reset { config: v[0], wait_for_pid: pid_of(v[1]), relaunch: v[2] is Some },
        ),
    }
}

/// The command line grammar. The first argument is the program name. The
/// next one is `--help`/`-h`, `--version`/`-V`, `help` (optionally followed
/// by a subcommand name) or a subcommand name; the subcommand's options
/// follow in any order, each at most once, as `--name value`,
/// `--name=value`, `-x value`, `-xvalue` or `-x=value`; `--` ends the
/// options.
pub open spec fn parse_args(args: Seq<Seq<char>>) -> Result<
    Option<CommandView>,
    (ErrorKind, Seq<char>),
> {
    let toks = if args.len() > 0 {
        args.drop_first()
    } else {
        args
    };
    if toks.len() == 0 {
        Ok(None)
    } else {
        let t = toks[0];
        let rest = toks.drop_first();
        if t == "--help"@ || t == "-h"@ {
            Err((ErrorKind::DisplayHelp, t))
        } else if t == "--version"@ || t == "-V"@ {
            Err((ErrorKind::DisplayVersion, t))
        } else if t == "help"@ {
            if rest.len() == 0 || command_named(rest[0]) is Some {
                Err((ErrorKind::DisplayHelp, t))
            } else {
                Err((ErrorKind::InvalidSubcommand, rest[0]))
            }
        } else if is_flag_token(t) {
            Err((ErrorKind::UnknownArgument, t))
        } else {
            match command_named(t) {
                None => Err((ErrorKind::InvalidSubcommand, t)),
                Some(cmd) => match scan(cmd, rest, 0, initial_scan(cmd)) {
                    Err(e) => Err(e),
                    Ok(st) => match build(cmd, st) {
                        Err(e) => Err(e),
                        Ok(c) => Ok(Some(c)),
                    },
                },
            }
        }
    }
}


// ---------------------------------------------------------------------------
// The parser.

struct OptRow {
    long: Vec<char>,
    short: Option<char>,
    kind: ValueKind,
}

spec fn rows_view(rows: Seq<OptRow>) -> Seq<OptSpec> {
    rows.map_values(|r: OptRow| OptSpec { long: r.long@, short: r.short, kind: r.kind })
}

fn row(long: &str, short: Option<char>, kind: ValueKind) -> (r: OptRow)
    ensures
        r.long@ == long@,
        r.short == short,
        r.kind == kind,
{
    OptRow { long: chars_of(long), short, kind }
}

fn push_row(rows: &mut Vec<OptRow>, long: &str, short: Option<char>, kind: ValueKind)
    ensures
        rows_view(final(rows)@) == rows_view(old(rows)@).push(opt(long@, short, kind)),
{
    let ghost before = rows@;
    rows.push(row(long, short, kind));
    assert(rows_view(rows@) =~= rows_view(before).push(opt(long@, short, kind)));
}

fn option_rows(cmd: CmdKind) -> (r: Vec<OptRow>)
    ensures
        rows_view(r@) == options(cmd),
{
    let mut r: Vec<OptRow> = Vec::new();
    assert(rows_view(r@) =~= Seq::<OptSpec>::empty());
    match cmd {
        CmdKind::Daemon => {
            push_row(&mut r, "model", Some('m'), ValueKind::Path);
            push_row(&mut r, "config", None, ValueKind::Path);
            push_row(&mut r, "save-utterances", None, ValueKind::Switch);
        },
        CmdKind::Record => {
            push_row(&mut r, "output", Some('o'), ValueKind::Path);
            push_row(&mut r, "duration", Some('d'), ValueKind::Count);
        },
        CmdKind::SelectDevice => {
            push_row(&mut r, "input", None, ValueKind::Text);
            push_row(&mut r, "output", None, ValueKind::Text);
            push_row(&mut r, "host", None, ValueKind::Text);
            push_row(&mut r, "config", None, ValueKind::Path);
        },
        CmdKind::DownloadModel => {
            push_row(&mut r, "config", None, ValueKind::Path);
            push_row(&mut r, "models-dir", Some('m'), ValueKind::Path);
        },
        CmdKind::Transcribe => {
            push_row(&mut r, "model", Some('m'), ValueKind::Path);
            push_row(&mut r, "config", None, ValueKind::Path);
            push_row(&mut r, "file", Some('f'), ValueKind::Path);
            push_row(&mut r, "duration", Some('d'), ValueKind::Count);
            push_row(&mut r, "input", None, ValueKind::Switch);
            push_row(&mut r, "save-utterances", None, ValueKind::Switch);
        },
        CmdKind::Type => {},
        CmdKind::Permissions => {
            push_row(&mut r, "remove", None, ValueKind::Switch);
        },
        CmdKind::LaunchAgent => {},
        CmdKind::Reset => {
            push_row(&mut r, "config", None, ValueKind::Path);
            push_row(&mut r, "wait-for-pid", None, ValueKind::Pid);
            push_row(&mut r, "relaunch", None, ValueKind::Switch);
        },
        _ => {
            push_row(&mut r, "config", None, ValueKind::Path);
        },
    }
    assert(rows_view(r@) =~= options(cmd));
    r
}

fn find_long_exec(rows: &Vec<OptRow>, name: &[char]) -> (r: Option<usize>)
    ensures
        match r {
            Some(k) => find_long(rows_view(rows@), name@, 0) == Some(k as nat),
            None => find_long(rows_view(rows@), name@, 0) is None,
        },
{
    let ghost os = rows_view(rows@);
    let mut i: usize = 0;
    while i < rows.len()
        invariant
            i <= rows@.len(),
            os == rows_view(rows@),
            find_long(os, name@, 0) == find_long(os, name@, i as int),
        decreases rows@.len() - i,
    {
        if chars_eq(rows[i].long.as_slice(), name) {
            return Some(i);
        }
        i = i + 1;
    }
    None
}

fn find_short_exec(rows: &Vec<OptRow>, c: char) -> (r: Option<usize>)
    ensures
        match r {
            Some(k) => find_short(rows_view(rows@), c, 0) == Some(k as nat),
            None => find_short(rows_view(rows@), c, 0) is None,
        },
{
    let ghost os = rows_view(rows@);
    let mut i: usize = 0;
    while i < rows.len()
        invariant
            i <= rows@.len(),
            os == rows_view(rows@),
            find_short(os, c, 0) == find_short(os, c, i as int),
        decreases rows@.len() - i,
    {
        if rows[i].short == Some(c) {
            return Some(i);
        }
        i = i + 1;
    }
    None
}

/// The name under which a subcommand is invoked.
pub fn command_name_str(cmd: CmdKind) -> (r: &'static str)
    ensures
        r@ == command_name(cmd),
{
    match cmd {
        CmdKind::Daemon => "daemon",
        CmdKind::ListDevices => "list-devices",
        CmdKind::Record => "record",
        CmdKind::SelectDevice => "select-device",
        CmdKind::DownloadModel => "download-model",
        CmdKind::Transcribe => "transcribe",
        CmdKind::Type => "type",
        CmdKind::Setup => "setup",
        CmdKind::Tutorial => "tutorial",
        CmdKind::Doctor => "doctor",
        CmdKind::Permissions => "permissions",
        CmdKind::LaunchAgent => "launch-agent",
        CmdKind::Reset => "reset",
    }
}

fn all_commands_exec() -> (r: Vec<CmdKind>)
    ensures
        r@ == all_commands(),
{
    let mut r: Vec<CmdKind> = Vec::new();
    r.push(CmdKind::Daemon);
    r.push(CmdKind::ListDevices);
    r.push(CmdKind::Record);
    r.push(CmdKind::SelectDevice);
    r.push(CmdKind::DownloadModel);
    r.push(CmdKind::Transcribe);
    r.push(CmdKind::Type);
    r.push(CmdKind::Setup);
    r.push(CmdKind::Tutorial);
    r.push(CmdKind::Doctor);
    r.push(CmdKind::Permissions);
    r.push(CmdKind::LaunchAgent);
    r.push(CmdKind::Reset);
    assert(r@ =~= all_commands());
    r
}

fn command_named_exec(name: &[char]) -> (r: Option<CmdKind>)
    ensures
        r == command_named(name@),
{
    let cmds = all_commands_exec();
    let mut i: usize = 0;
    while i < cmds.len()
        invariant
            i <= cmds@.len(),
            cmds@ == all_commands(),
            command_named(name@) == find_command(cmds@, name@, i as int),
        decreases cmds@.len() - i,
    {
        let cmd = cmds[i];
        if chars_eq(chars_of(command_name_str(cmd)).as_slice(), name) {
            return Some(cmd);
        }
        i = i + 1;
    }
    None
}

fn is_flag_token_exec(t: &[char]) -> (r: bool)
    ensures
        r == is_flag_token(t@),
{
    t.len() > 1 && t[0] == '-'
}

fn is_word(v: &[char], w: &str) -> (r: bool)
    ensures
        r == (v@ == w@),
{
    chars_eq(v, chars_of(w).as_slice())
}

fn value_error_exec(kind: ValueKind, v: &[char]) -> (r: Option<ErrorKind>)
    ensures
        r == value_error(kind, v@),
{
    match kind {
        ValueKind::Path => if v.len() == 0 {
            Some(ErrorKind::InvalidValue)
        } else {
            None
        },
        ValueKind::Count => match parse_u64_chars(v) {
            Some(_) => None,
            None => Some(ErrorKind::ValueValidation),
        },
        ValueKind::Pid => match parse_u64_chars(v) {
            Some(n) => if n <= 0xffff_ffffu64 {
                None
            } else {
                Some(ErrorKind::ValueValidation)
            },
            None => Some(ErrorKind::ValueValidation),
        },
        ValueKind::Permission => if is_word(v, "microphone") || is_word(v, "accessibility")
            || is_word(v, "all") {
            None
        } else {
            Some(ErrorKind::InvalidValue)
        },
        ValueKind::AgentAction => if is_word(v, "install") || is_word(v, "uninstall") || is_word(
            v,
            "status",
        ) {
            None
        } else {
            Some(ErrorKind::InvalidValue)
        },
        _ => None,
    }
}

struct ScanState {
    vals: Vec<Option<Vec<char>>>,
    pos: Option<Vec<char>>,
    dashdash: bool,
}

spec fn opt_chars(o: Option<Vec<char>>) -> Option<Seq<char>> {
    match o {
        Some(v) => Some(v@),
        None => None,
    }
}

spec fn scan_view(s: ScanState) -> Scanned {
    Scanned {
        vals: s.vals@.map_values(|o: Option<Vec<char>>| opt_chars(o)),
        pos: opt_chars(s.pos),
        dashdash: s.dashdash,
    }
}

type StepExec = Result<(usize, ScanState), (ErrorKind, Vec<char>)>;

spec fn step_agrees(r: StepExec, expected: ScanStep, width: nat) -> bool {
    match r {
        Ok((n, s)) => {
            &&& expected == Ok::<(nat, Scanned), (ErrorKind, Seq<char>)>((n as nat, scan_view(s)))
            &&& 1 <= n <= 2
            &&& s.vals@.len() == width
        },
        Err((k, a)) => expected == Err::<(nat, Scanned), (ErrorKind, Seq<char>)>((k, a@)),
    }
}

fn copy_chars(v: &[char]) -> (r: Vec<char>)
    ensures
        r@ == v@,
{
    let r = sub_vec(v, 0, v.len());
    assert(r@ =~= v@);
    r
}

fn take_positional_exec(cmd: CmdKind, st: ScanState, t: &[char]) -> (r: StepExec)
    ensures
        step_agrees(r, take_positional(cmd, scan_view(st), t@), st.vals@.len() as nat),
{
    let p = match cmd {
        CmdKind::DownloadModel => Some(ValueKind::Text),
        CmdKind::Type => Some(ValueKind::Text),
        CmdKind::Permissions => Some(ValueKind::Permission),
        CmdKind::LaunchAgent => Some(ValueKind::AgentAction),
        _ => None,
    };
    match p {
        None => Err((ErrorKind::UnknownArgument, copy_chars(t))),
        Some(kind) => {
            if st.pos.is_some() {
                return Err((ErrorKind::UnknownArgument, copy_chars(t)));
            }
            match value_error_exec(kind, t) {
                Some(e) => Err((e, copy_chars(t))),
                None => {
                    let ghost sv = scan_view(st);
                    let next = ScanState { vals: st.vals, pos: Some(copy_chars(t)), dashdash: st.dashdash };
                    assert(scan_view(next) =~= Scanned { pos: Some(t@), ..sv });
                    Ok((1, next))
                },
            }
        },
    }
}

fn take_option_exec(
    cmd: CmdKind,
    rows: &Vec<OptRow>,
    toks: &Vec<Vec<char>>,
    i: usize,
    st: ScanState,
    k: usize,
    inline: Option<Vec<char>>,
    t: &[char],
) -> (r: StepExec)
    requires
        rows_view(rows@) == options(cmd),
        k < rows@.len(),
        st.vals@.len() == rows@.len(),
        i < toks@.len(),
    ensures
        step_agrees(
            r,
            take_option(cmd, views(toks@), i as int, scan_view(st), k as nat, opt_chars(inline), t@),
            st.vals@.len() as nat,
        ),
{
    let ghost sv = scan_view(st);
    let ghost tv = views(toks@);
    let kind = rows[k].kind;
    assert(options(cmd)[k as int].kind == kind);
    assert(sv.vals[k as int] == opt_chars(st.vals@[k as int]));
    if st.vals[k].is_some() {
        return Err((ErrorKind::ArgumentConflict, copy_chars(t)));
    }
    let mut st = st;
    if kind == ValueKind::Switch {
        if inline.is_some() {
            return Err((ErrorKind::TooManyValues, copy_chars(t)));
        }
        st.vals.set(k, Some(chars_of("true")));
        assert(scan_view(st) =~= Scanned { vals: sv.vals.update(k as int, Some("true"@)), ..sv });
        return Ok((1, st));
    }
    let (value, used): (Vec<char>, usize) = match inline {
        Some(v) => (v, 1),
        None => {
            if i < toks.len() - 1 && !is_flag_token_exec(toks[i + 1].as_slice()) {
                assert(tv[i + 1] == toks@[i + 1]@);
                (copy_chars(toks[i + 1].as_slice()), 2)
            } else {
                return Err((ErrorKind::InvalidValue, copy_chars(t)));
            }
        },
    };
    match value_error_exec(kind, value.as_slice()) {
        Some(e) => Err((e, value)),
        None => {
            let ghost vv = value@;
            st.vals.set(k, Some(value));
            assert(scan_view(st) =~= Scanned { vals: sv.vals.update(k as int, Some(vv)), ..sv });
            Ok((used, st))
        },
    }
}

fn scan_step_exec(
    cmd: CmdKind,
    rows: &Vec<OptRow>,
    toks: &Vec<Vec<char>>,
    i: usize,
    st: ScanState,
) -> (r: StepExec)
    requires
        rows_view(rows@) == options(cmd),
        st.vals@.len() == rows@.len(),
        i < toks@.len(),
    ensures
        step_agrees(r, scan_step(cmd, views(toks@), i as int, scan_view(st)), st.vals@.len() as nat),
{
    let ghost sv = scan_view(st);
    let ghost tv = views(toks@);
    let t = toks[i].as_slice();
    assert(tv[i as int] == t@);
    if st.dashdash {
        return take_positional_exec(cmd, st, t);
    }
    if is_word(t, "--") {
        let next = ScanState { vals: st.vals, pos: st.pos, dashdash: true };
        assert(scan_view(next) =~= Scanned { dashdash: true, ..sv });
        return Ok((1, next));
    }
    if is_word(t, "--help") || is_word(t, "-h") {
        return Err((ErrorKind::DisplayHelp, copy_chars(t)));
    }
    let dd = chars_of("--");
    proof {
        reveal_strlit("--");
    }
    if starts_with_chars(t, dd.as_slice()) {
        let body = sub_vec(t, 2, t.len());
        assert(body@ =~= t@.skip(2));
        let (name, inline) = match split_once_chars(body.as_slice(), '=') {
            Some((n, v)) => (n, Some(v)),
            None => (body, None),
        };
        return match find_long_exec(rows, name.as_slice()) {
            None => Err((ErrorKind::UnknownArgument, copy_chars(t))),
            Some(k) => {
                proof {
                    lemma_find_long_bound(options(cmd), name@, 0);
                }
                take_option_exec(cmd, rows, toks, i, st, k, inline, t)
            },
        };
    }
    if is_flag_token_exec(t) {
        return match find_short_exec(rows, t[1]) {
            None => Err((ErrorKind::UnknownArgument, copy_chars(t))),
            Some(k) => {
                proof {
                    lemma_find_short_bound(options(cmd), t@[1], 0);
                }
                let inline = if t.len() > 2 {
                    let rest = sub_vec(t, 2, t.len());
                    assert(rest@ =~= t@.skip(2));
                    if rest[0] == '=' {
                        let v = sub_vec(rest.as_slice(), 1, rest.len());
                        assert(v@ =~= rest@.drop_first());
                        Some(v)
                    } else {
                        Some(rest)
                    }
                } else {
                    None
                };
                take_option_exec(cmd, rows, toks, i, st, k, inline, t)
            },
        };
    }
    take_positional_exec(cmd, st, t)
}

proof fn lemma_find_long_bound(os: Seq<OptSpec>, name: Seq<char>, k: int)
    ensures
        find_long(os, name, k) matches Some(j) ==> j < os.len(),
    decreases os.len() - k,
{
    if 0 <= k < os.len() && os[k].long != name {
        lemma_find_long_bound(os, name, k + 1);
    }
}

proof fn lemma_find_short_bound(os: Seq<OptSpec>, c: char, k: int)
    ensures
        find_short(os, c, k) matches Some(j) ==> j < os.len(),
    decreases os.len() - k,
{
    if 0 <= k < os.len() && os[k].short != Some(c) {
        lemma_find_short_bound(os, c, k + 1);
    }
}


fn initial_state(cmd: CmdKind, width: usize) -> (r: ScanState)
    requires
        width == options(cmd).len(),
    ensures
        scan_view(r) == initial_scan(cmd),
        r.vals@.len() == width,
{
    let mut vals: Vec<Option<Vec<char>>> = Vec::new();
    let mut i: usize = 0;
    while i < width
        invariant
            i <= width,
            vals@.len() == i,
            forall|k: int| 0 <= k < i ==> vals@[k] is None,
        decreases width - i,
    {
        vals.push(None);
        i = i + 1;
    }
    let r = ScanState { vals, pos: None, dashdash: false };
    assert(scan_view(r) =~= initial_scan(cmd));
    r
}

fn scan_exec(cmd: CmdKind, toks: &Vec<Vec<char>>) -> (r: Result<ScanState, (ErrorKind, Vec<char>)>)
    ensures
        match r {
            Ok(st) => scan(cmd, views(toks@), 0, initial_scan(cmd)) == Ok::<
                Scanned,
                (ErrorKind, Seq<char>),
            >(scan_view(st)) && st.vals@.len() == options(cmd).len(),
            Err((k, a)) => scan(cmd, views(toks@), 0, initial_scan(cmd)) == Err::<
                Scanned,
                (ErrorKind, Seq<char>),
            >((k, a@)),
        },
{
    let ghost tv = views(toks@);
    let rows = option_rows(cmd);
    let mut st = initial_state(cmd, rows.len());
    let mut i: usize = 0;
    while i < toks.len()
        invariant
            i <= toks@.len(),
            tv == views(toks@),
            rows_view(rows@) == options(cmd),
            st.vals@.len() == rows@.len(),
            scan(cmd, tv, 0, initial_scan(cmd)) == scan(cmd, tv, i as int, scan_view(st)),
        decreases toks@.len() - i,
    {
        let ghost sv = scan_view(st);
        match scan_step_exec(cmd, &rows, toks, i, st) {
            Err(e) => {
                return Err(e);
            },
            Ok((n, next)) => {
                let j = if n > toks.len() - i {
                    toks.len()
                } else {
                    i + n
                };
                assert(scan(cmd, tv, i as int, sv) == scan(cmd, tv, j as int, scan_view(next)));
                st = next;
                i = j;
            },
        }
    }
    Ok(st)
}

fn chars_at(st: &ScanState, k: usize) -> (r: Option<Vec<char>>)
    requires
        k < st.vals@.len(),
    ensures
        opt_chars(r) == scan_view(*st).vals[k as int],
{
    match &st.vals[k] {
        Some(v) => Some(copy_chars(v.as_slice())),
        None => None,
    }
}

fn string_at(st: &ScanState, k: usize) -> (r: Option<String>)
    requires
        k < st.vals@.len(),
    ensures
        opt_view(r) == scan_view(*st).vals[k as int],
{
    match &st.vals[k] {
        Some(v) => Some(string_of(v.as_slice())),
        None => None,
    }
}

fn count_at(st: &ScanState, k: usize, default: u64) -> (r: u64)
    requires
        k < st.vals@.len(),
    ensures
        r as nat == count_or(scan_view(*st).vals[k as int], default as nat),
{
    match chars_at(st, k) {
        Some(v) => match parse_u64_chars(v.as_slice()) {
            Some(n) => n,
            None => default,
        },
        None => default,
    }
}

fn permission_exec(v: &[char]) -> (r: PermissionTarget)
    ensures
        r == permission_of(v@),
{
    if is_word(v, "microphone") {
        PermissionTarget::Microphone
    } else if is_word(v, "accessibility") {
        PermissionTarget::Accessibility
    } else {
        PermissionTarget::All
    }
}

fn agent_action_exec(v: &[char]) -> (r: LaunchAgentAction)
    ensures
        r == agent_action_of(v@),
{
    if is_word(v, "install") {
        LaunchAgentAction::Install
    } else if is_word(v, "uninstall") {
        LaunchAgentAction::Uninstall
    } else {
        LaunchAgentAction::Status
    }
}

fn build_exec(cmd: CmdKind, st: &ScanState) -> (r: Result<Commands, (ErrorKind, Vec<char>)>)
    requires
        st.vals@.len() == options(cmd).len(),
    ensures
        match r {
            Ok(c) => build(cmd, scan_view(*st)) == Ok::<CommandView, (ErrorKind, Seq<char>)>(c@),
            Err((k, a)) => build(cmd, scan_view(*st)) == Err::<CommandView, (ErrorKind, Seq<char>)>(
                (k, a@),
            ),
        },
{
    let ghost v = scan_view(*st).vals;
    match cmd {
        CmdKind::Daemon => Ok(
            Commands::Daemon {
                model: string_at(st, 0),
                config: string_at(st, 1),
                save_utterances: st.vals[2].is_some(),
            },
        ),
        CmdKind::ListDevices => Ok(Commands::ListDevices { config: string_at(st, 0) }),
        CmdKind::Record => {
            let output = match string_at(st, 0) {
                Some(o) => o,
                None => "recording.wav".to_string(),
            };
            Ok(Commands::Record { output, duration: count_at(st, 1, 5) })
        },
        CmdKind::SelectDevice => Ok(
            Commands::SelectDevice {
                input: string_at(st, 0),
                output: string_at(st, 1),
                host: string_at(st, 2),
                config: string_at(st, 3),
            },
        ),
        CmdKind::DownloadModel => {
            let model = match &st.pos {
                Some(p) => Some(string_of(p.as_slice())),
                None => None,
            };
            Ok(Commands::DownloadModel { model, config: string_at(st, 0), models_dir: string_at(st, 1) })
        },
        CmdKind::Transcribe => Ok(
            Commands::Transcribe {
                model: string_at(st, 0),
                config: string_at(st, 1),
                file: string_at(st, 2),
                duration: count_at(st, 3, 5),
                inject: st.vals[4].is_some(),
                save_utterances: st.vals[5].is_some(),
            },
        ),
        CmdKind::Type => match &st.pos {
            Some(p) => Ok(Commands::Type { text: string_of(p.as_slice()) }),
            None => Err((ErrorKind::MissingRequiredArgument, chars_of("<TEXT>"))),
        },
        CmdKind::Setup => Ok(Commands::Setup { config: string_at(st, 0) }),
        CmdKind::Tutorial => Ok(Commands::Tutorial { config: string_at(st, 0) }),
        CmdKind::Doctor => Ok(Commands::Doctor { config: string_at(st, 0) }),
        CmdKind::Permissions => match &st.pos {
            Some(p) => Ok(
                Commands::Permissions {
                    target: permission_exec(p.as_slice()),
                    remove: st.vals[0].is_some(),
                },
            ),
            None => Err((ErrorKind::MissingRequiredArgument, chars_of("<TARGET>"))),
        },
        CmdKind::LaunchAgent => match &st.pos {
            Some(p) => Ok(Commands::LaunchAgent { action: agent_action_exec(p.as_slice()) }),
            None => Err((ErrorKind::MissingRequiredArgument, chars_of("<ACTION>"))),
        },
        CmdKind::Reset => {
            let wait_for_pid = match chars_at(st, 1) {
                Some(p) => match parse_u64_chars(p.as_slice()) {
                    Some(n) => if n <= 0xffff_ffffu64 {
                        Some(n as u32)
                    } else {
                        None
                    },
                    None => None,
                },
                None => None,
            };
            Ok(
                Commands::Reset {
                    config: string_at(st, 0),
                    wait_for_pid,
                    relaunch: st.vals[2].is_some(),
                },
            )
        },
    }
}

impl Cli {
    /// Parses a command line whose first element is the program name.
    pub fn try_parse_from(args: &[String]) -> (r: Result<Cli, CliError>)
        ensures
            match r {
                Ok(c) => parse_args(string_views(args@)) == Ok::<
                    Option<CommandView>,
                    (ErrorKind, Seq<char>),
                >(cli_view(c.command)),
                Err(e) => parse_args(string_views(args@)) == Err::<
                    Option<CommandView>,
                    (ErrorKind, Seq<char>),
                >((e.kind, e.arg@)),
            },
    {
        let ghost all = string_views(args@);
        let ghost toks = if all.len() > 0 {
            all.drop_first()
        } else {
            all
        };
        if args.len() <= 1 {
            return Ok(Cli { command: None });
        }
        let first = chars_of(args[1].as_str());
        let mut rest: Vec<Vec<char>> = Vec::new();
        let mut i: usize = 2;
        while i < args.len()
            invariant
                2 <= i <= args@.len(),
                all == string_views(args@),
                views(rest@) == all.subrange(2, i as int),
            decreases args@.len() - i,
        {
            let ghost before = rest@;
            rest.push(chars_of(args[i].as_str()));
            assert(views(rest@) =~= views(before).push(args@[i as int]@));
            assert(all.subrange(2, i as int + 1) =~= all.subrange(2, i as int).push(all[i as int]));
            i = i + 1;
        }
        assert(toks[0] == first@);
        assert(views(rest@) =~= toks.drop_first());
        let t = first.as_slice();
        if is_word(t, "--help") || is_word(t, "-h") {
            return Err(CliError { kind: ErrorKind::DisplayHelp, arg: string_of(t) });
        }
        if is_word(t, "--version") || is_word(t, "-V") {
            return Err(CliError { kind: ErrorKind::DisplayVersion, arg: string_of(t) });
        }
        if is_word(t, "help") {
            if rest.len() == 0 {
                return Err(CliError { kind: ErrorKind::DisplayHelp, arg: string_of(t) });
            }
            assert(views(rest@)[0] == rest@[0]@);
            if command_named_exec(rest[0].as_slice()).is_some() {
                return Err(CliError { kind: ErrorKind::DisplayHelp, arg: string_of(t) });
            }
            return Err(CliError { kind: ErrorKind::InvalidSubcommand, arg: string_of(rest[0].as_slice()) });
        }
        if is_flag_token_exec(t) {
            return Err(CliError { kind: ErrorKind::UnknownArgument, arg: string_of(t) });
        }
        match command_named_exec(t) {
            None => Err(CliError { kind: ErrorKind::InvalidSubcommand, arg: string_of(t) }),
            Some(cmd) => match scan_exec(cmd, &rest) {
                Err((kind, a)) => Err(CliError { kind, arg: string_of(a.as_slice()) }),
                Ok(st) => match build_exec(cmd, &st) {
                    Err((kind, a)) => Err(CliError { kind, arg: string_of(a.as_slice()) }),
                    Ok(c) => Ok(Cli { command: Some(c) }),
                },
            },
        }
    }
}


// ---------------------------------------------------------------------------
// Argument normalization, help and error texts.

impl PermissionTarget {
    /// The word that names the target on the command line.
    pub fn command_name(&self) -> (r: &'static str)
        ensures
            r@ == match self {
                PermissionTarget::Microphone => "microphone"@,
                PermissionTarget::Accessibility => "accessibility"@,
                PermissionTarget::All => "all"@,
            },
    {
        match self {
            PermissionTarget::Microphone => "microphone",
            PermissionTarget::Accessibility => "accessibility",
            PermissionTarget::All => "all",
        }
    }
}

/// The argument macOS adds when it launches an app bundle (`-psn_…`).
pub open spec fn is_process_serial_arg(a: Seq<char>) -> bool {
    starts_with(a, "-psn_"@)
}

/// The arguments with `-?` spelled `--help` and process serial number
/// arguments dropped.
pub open spec fn normalized(args: Seq<Seq<char>>) -> Seq<Seq<char>>
    decreases args.len(),
{
    if args.len() == 0 {
        Seq::empty()
    } else {
        let init = normalized(args.drop_last());
        let a = args.last();
        if a == "-?"@ {
            init.push("--help"@)
        } else if is_process_serial_arg(a) {
            init
        } else {
            init.push(a)
        }
    }
}

pub fn is_macos_process_serial_arg(arg: &str) -> (r: bool)
    ensures
        r == is_process_serial_arg(arg@),
{
    starts_with_chars(chars_of(arg).as_slice(), chars_of("-psn_").as_slice())
}

/// Maps `-?` to `--help` so both spellings work, and drops the process
/// serial number argument macOS passes to app bundles.
pub fn normalize_args(args: &[String]) -> (r: Vec<String>)
    ensures
        string_views(r@) == normalized(string_views(args@)),
{
    let ghost all = string_views(args@);
    let mut r: Vec<String> = Vec::new();
    let mut i: usize = 0;
    assert(all.take(0) =~= Seq::<Seq<char>>::empty());
    while i < args.len()
        invariant
            i <= args@.len(),
            all == string_views(args@),
            string_views(r@) == normalized(all.take(i as int)),
        decreases args@.len() - i,
    {
        assert(all.take(i as int + 1).drop_last() =~= all.take(i as int));
        assert(all.take(i as int + 1).last() == args@[i as int]@);
        let a = args[i].as_str();
        let ghost before = r@;
        if is_word(chars_of(a).as_slice(), "-?") {
            let h = "--help".to_string();
            r.push(h);
            assert(string_views(r@) =~= string_views(before).push("--help"@));
        } else if is_macos_process_serial_arg(a) {
        } else {
            r.push(a.to_owned());
            assert(string_views(r@) =~= string_views(before).push(a@));
        }
        i = i + 1;
    }
    assert(all.take(args@.len() as int) =~= all);
    r
}

/// Commands left out of the help text.
pub open spec fn hidden(cmd: CmdKind) -> bool {
    cmd == CmdKind::Setup || cmd == CmdKind::Tutorial
}

/// The one-line description of a subcommand.
pub open spec fn command_about(cmd: CmdKind) -> Seq<char> {
    match cmd {
        CmdKind::Daemon => "Run as a background service that responds to key events"@,
        CmdKind::ListDevices => "List all available audio input and output devices"@,
        CmdKind::Record => "Record audio from the default input device to a 16 kHz mono 16-bit PCM WAV file"@,
        CmdKind::SelectDevice => "Select the audio input or output device by index or name"@,
        CmdKind::DownloadModel => "Download a known model by name and set it as the default"@,
        CmdKind::Transcribe => "Transcribe audio from a file or from the microphone (default)"@,
        CmdKind::Type => "Inject text at the currently focused text input via the Accessibility API"@,
        CmdKind::Setup => "Show setup/ready state for first run"@,
        CmdKind::Tutorial => "Run the first-launch tutorial window (ignores has_seen_tutorial)"@,
        CmdKind::Doctor => "Show runtime readiness for daemon startup"@,
        CmdKind::Permissions => "Check and request permissions"@,
        CmdKind::LaunchAgent => "Manage the macOS LaunchAgent used to keep Jabberwok running after login"@,
        CmdKind::Reset => "Remove local Jabberwok data and optionally relaunch into setup"@,
    }
}

fn command_about_str(cmd: CmdKind) -> (r: &'static str)
    ensures
        r@ == command_about(cmd),
{
    match cmd {
        CmdKind::Daemon => "Run as a background service that responds to key events",
        CmdKind::ListDevices => "List all available audio input and output devices",
        CmdKind::Record => "Record audio from the default input device to a 16 kHz mono 16-bit PCM WAV file",
        CmdKind::SelectDevice => "Select the audio input or output device by index or name",
        CmdKind::DownloadModel => "Download a known model by name and set it as the default",
        CmdKind::Transcribe => "Transcribe audio from a file or from the microphone (default)",
        CmdKind::Type => "Inject text at the currently focused text input via the Accessibility API",
        CmdKind::Setup => "Show setup/ready state for first run",
        CmdKind::Tutorial => "Run the first-launch tutorial window (ignores has_seen_tutorial)",
        CmdKind::Doctor => "Show runtime readiness for daemon startup",
        CmdKind::Permissions => "Check and request permissions",
        CmdKind::LaunchAgent => "Manage the macOS LaunchAgent used to keep Jabberwok running after login",
        CmdKind::Reset => "Remove local Jabberwok data and optionally relaunch into setup",
    }
}

/// `n` spaces.
pub open spec fn spaces(n: int) -> Seq<char> {
    Seq::new(if n < 0 { 0 } else { n as nat }, |i: int| ' ')
}

/// One line of the command list: the name padded to the column of the
/// descriptions, then the description.
pub open spec fn help_entry(name: Seq<char>, about: Seq<char>) -> Seq<char> {
    "  "@ + name + spaces(16 - name.len()) + about + "\n"@
}

/// The command-list lines of the commands that are not hidden.
pub open spec fn help_entries(cmds: Seq<CmdKind>) -> Seq<char>
    decreases cmds.len(),
{
    if cmds.len() == 0 {
        Seq::empty()
    } else {
        let init = help_entries(cmds.drop_last());
        let c = cmds.last();
        if hidden(c) {
            init
        } else {
            init + help_entry(command_name(c), command_about(c))
        }
    }
}

pub open spec fn help_heading() -> Seq<char> {
    "A key event handler \u{2014} runs as a CLI or a background service\n\nUsage: jabberwok [COMMAND]\n\nCommands:\n"@
}

pub open spec fn help_footer() -> Seq<char> {
    "\nOptions:\n  -h, --help     Print help\n  -V, --version  Print version\n"@
}

/// The top-level help: usage, the visible commands, and the options.
pub open spec fn help(cmds: Seq<CmdKind>) -> Seq<char> {
    help_heading() + help_entries(cmds) + help_entry(
        "help"@,
        "Print this message or the help of the given subcommand(s)"@,
    ) + help_footer()
}

fn push_entry(out: &mut Vec<char>, name: &str, about: &str)
    ensures
        final(out)@ == old(out)@ + help_entry(name@, about@),
{
    let n = chars_of(name);
    push_all(out, chars_of("  ").as_slice());
    push_all(out, n.as_slice());
    let mut k: usize = n.len();
    let ghost base = out@;
    while k < 16
        invariant
            n@.len() <= k <= 16 || (n@.len() > 16 && k == n@.len()),
            out@ == base + spaces(k - n@.len()),
        decreases 16 - k,
    {
        out.push(' ');
        k = k + 1;
        assert(out@ =~= base + spaces(k - n@.len()));
    }
    assert(spaces(k - n@.len()) =~= spaces(16 - n@.len()));
    push_all(out, chars_of(about).as_slice());
    push_all(out, chars_of("\n").as_slice());
}

/// The help text printed for `--help`.
pub fn help_text() -> (r: String)
    ensures
        r@ == help(all_commands()),
{
    let cmds = all_commands_exec();
    let mut out = chars_of(
        "A key event handler \u{2014} runs as a CLI or a background service\n\nUsage: jabberwok [COMMAND]\n\nCommands:\n",
    );
    let ghost head = out@;
    let mut i: usize = 0;
    assert(cmds@.take(0) =~= Seq::<CmdKind>::empty());
    while i < cmds.len()
        invariant
            i <= cmds@.len(),
            cmds@ == all_commands(),
            out@ == head + help_entries(cmds@.take(i as int)),
        decreases cmds@.len() - i,
    {
        let c = cmds[i];
        assert(cmds@.take(i as int + 1).drop_last() =~= cmds@.take(i as int));
        assert(cmds@.take(i as int + 1).last() == c);
        if c != CmdKind::Setup && c != CmdKind::Tutorial {
            push_entry(&mut out, command_name_str(c), command_about_str(c));
        }
        i = i + 1;
    }
    assert(cmds@.take(cmds@.len() as int) =~= cmds@);
    push_entry(&mut out, "help", "Print this message or the help of the given subcommand(s)");
    push_all(
        &mut out,
        chars_of("\nOptions:\n  -h, --help     Print help\n  -V, --version  Print version\n").as_slice(),
    );
    string_of(out.as_slice())
}

/// The text shown for an error; for help and version requests, the text
/// printed instead of running a command.
pub open spec fn error_message(kind: ErrorKind, arg: Seq<char>) -> Seq<char> {
    match kind {
        ErrorKind::DisplayHelp => help(all_commands()),
        ErrorKind::DisplayVersion => "jabberwok"@,
        ErrorKind::InvalidSubcommand => "unrecognized subcommand '"@ + arg + "'"@,
        ErrorKind::UnknownArgument => "unexpected argument '"@ + arg + "' found"@,
        ErrorKind::InvalidValue => "invalid value '"@ + arg + "'"@,
        ErrorKind::ValueValidation => "invalid number '"@ + arg + "'"@,
        ErrorKind::ArgumentConflict => "the argument '"@ + arg + "' cannot be used multiple times"@,
        ErrorKind::TooManyValues => "unexpected value in '"@ + arg + "'"@,
        ErrorKind::MissingRequiredArgument => "the following required arguments were not provided: "@
            + arg,
    }
}

impl CliError {
    pub fn message(&self) -> (r: String)
        ensures
            r@ == error_message(self.kind, self.arg@),
    {
        let a = chars_of(self.arg.as_str());
        let (pre, post): (&str, &str) = match self.kind {
            ErrorKind::DisplayHelp => {
                return help_text();
            },
            ErrorKind::DisplayVersion => {
                return "jabberwok".to_string();
            },
            ErrorKind::InvalidSubcommand => ("unrecognized subcommand '", "'"),
            ErrorKind::UnknownArgument => ("unexpected argument '", "' found"),
            ErrorKind::InvalidValue => ("invalid value '", "'"),
            ErrorKind::ValueValidation => ("invalid number '", "'"),
            ErrorKind::ArgumentConflict => ("the argument '", "' cannot be used multiple times"),
            ErrorKind::TooManyValues => ("unexpected value in '", "'"),
            ErrorKind::MissingRequiredArgument => (
                "the following required arguments were not provided: ",
                "",
            ),
        };
        let mut m = chars_of(pre);
        push_all(&mut m, a.as_slice());
        push_all(&mut m, chars_of(post).as_slice());
        proof {
            reveal_strlit("");
        }
        assert(m@ =~= error_message(self.kind, self.arg@));
        string_of(m.as_slice())
    }
}


// ---------------------------------------------------------------------------
// Laws.

proof fn lemma_normalized_append(a: Seq<Seq<char>>, b: Seq<Seq<char>>)
    ensures
        normalized(a + b) == normalized(a) + normalized(b),
    decreases b.len(),
{
    if b.len() == 0 {
        assert(a + b =~= a);
        assert(normalized(a) + normalized(b) =~= normalized(a));
    } else {
        lemma_normalized_append(a, b.drop_last());
        assert((a + b).drop_last() =~= a + b.drop_last());
        assert((a + b).last() == b.last());
        let x = b.last();
        if x == "-?"@ {
            assert(normalized(a) + normalized(b) =~= normalized(a) + normalized(b.drop_last()).push(
                "--help"@,
            ));
        } else if is_process_serial_arg(x) {
        } else {
            assert(normalized(a) + normalized(b) =~= normalized(a) + normalized(b.drop_last()).push(
                x,
            ));
        }
    }
}

/// Normalizing twice changes nothing more: `--help` is left alone and no
/// kept argument is a process serial number.
pub proof fn lemma_normalize_idempotent(args: Seq<Seq<char>>)
    ensures
        normalized(normalized(args)) == normalized(args),
    decreases args.len(),
{
    if args.len() > 0 {
        lemma_normalize_idempotent(args.drop_last());
        let init = normalized(args.drop_last());
        let a = args.last();
        reveal_strlit("-?");
        reveal_strlit("--help");
        reveal_strlit("-psn_");
        if a == "-?"@ {
            lemma_normalized_append(init, seq!["--help"@]);
            assert(seq!["--help"@].drop_last() =~= Seq::<Seq<char>>::empty());
            assert(!is_process_serial_arg("--help"@)) by {
                assert("--help"@.take(5)[1] == '-');
            }
            assert(seq!["--help"@].last() == "--help"@);
            assert(normalized(Seq::<Seq<char>>::empty()) =~= Seq::<Seq<char>>::empty());
            assert("--help"@ != "-?"@) by {
                assert("--help"@.len() != "-?"@.len());
            }
            assert(normalized(seq!["--help"@]) =~= seq!["--help"@]);
            assert(init.push("--help"@) =~= init + seq!["--help"@]);
        } else if is_process_serial_arg(a) {
        } else {
            lemma_normalized_append(init, seq![a]);
            assert(seq![a].drop_last() =~= Seq::<Seq<char>>::empty());
            assert(seq![a].last() == a);
            assert(normalized(Seq::<Seq<char>>::empty()) =~= Seq::<Seq<char>>::empty());
            assert(normalized(seq![a]) =~= seq![a]);
            assert(init.push(a) =~= init + seq![a]);
        }
    }
}

proof fn lemma_help_entries_lines(cmds: Seq<CmdKind>)
    ensures
        help_entries(cmds).len() == 0 || help_entries(cmds).last() == '\n',
    decreases cmds.len(),
{
    reveal_strlit("\n");
    if cmds.len() > 0 {
        lemma_help_entries_lines(cmds.drop_last());
    }
}

proof fn lemma_help_entries_split(cmds: Seq<CmdKind>, k: int)
    requires
        0 <= k < cmds.len(),
        !hidden(cmds[k]),
    ensures
        exists|pre: Seq<char>, post: Seq<char>|
            (pre.len() == 0 || pre.last() == '\n') && help_entries(cmds) == pre + help_entry(
                command_name(cmds[k]),
                command_about(cmds[k]),
            ) + post,
    decreases cmds.len(),
{
    lemma_help_entries_lines(cmds.drop_last());
    let c = cmds[k];
    let e = help_entry(command_name(c), command_about(c));
    if k == cmds.len() - 1 {
        assert(help_entries(cmds) == help_entries(cmds.drop_last()) + e + Seq::<char>::empty());
    } else {
        lemma_help_entries_split(cmds.drop_last(), k);
        assert(cmds.drop_last()[k] == c);
        let (pre, post) = choose|pre: Seq<char>, post: Seq<char>|
            (pre.len() == 0 || pre.last() == '\n') && help_entries(cmds.drop_last()) == pre + e
                + post;
        let last = cmds.last();
        if hidden(last) {
            assert(help_entries(cmds) == pre + e + post);
        } else {
            let le = help_entry(command_name(last), command_about(last));
            assert(help_entries(cmds) =~= pre + e + (post + le));
        }
    }
}

proof fn lemma_line_in_text(head: Seq<char>, e: Seq<char>, tail: Seq<char>, word: Seq<char>)
    requires
        head.len() > 0,
        head.last() == '\n',
        e.len() >= 2 + word.len(),
        e[0] == ' ',
        e[1] == ' ',
        e.subrange(2, 2 + word.len() as int) == word,
    ensures
        crate::text::contains(head + e + tail, seq!['\n', ' ', ' '] + word),
{
    let h = head + e + tail;
    let needle = seq!['\n', ' ', ' '] + word;
    let i = head.len() - 1;
    assert(h.subrange(i, i + needle.len()) =~= needle) by {
        assert forall|j: int| 0 <= j < needle.len() implies h.subrange(i, i + needle.len())[j]
            == needle[j] by {
            if j >= 3 {
                assert(e.subrange(2, 2 + word.len() as int)[j - 3] == e[j - 1]);
            }
        }
    }
    assert(crate::text::contains_at(h, needle, i));
}

proof fn lemma_entry_starts_with_name(name: Seq<char>, about: Seq<char>)
    ensures
        help_entry(name, about).len() >= 2 + name.len(),
        help_entry(name, about)[0] == ' ',
        help_entry(name, about)[1] == ' ',
        help_entry(name, about).subrange(2, 2 + name.len() as int) == name,
{
    reveal_strlit("  ");
    let e = help_entry(name, about);
    assert(e.subrange(2, 2 + name.len() as int) =~= name);
}

/// The help text names every command that is not hidden, at the start of a
/// line of its own (after the two-space indent).
#[verifier::spinoff_prover]
pub proof fn lemma_help_lists_visible_commands(cmd: CmdKind)
    requires
        !hidden(cmd),
    ensures
        crate::text::contains(help(all_commands()), seq!['\n', ' ', ' '] + command_name(cmd)),
{
    let cmds = all_commands();
    let k: int = match cmd {
        CmdKind::Daemon => 0,
        CmdKind::ListDevices => 1,
        CmdKind::Record => 2,
        CmdKind::SelectDevice => 3,
        CmdKind::DownloadModel => 4,
        CmdKind::Transcribe => 5,
        CmdKind::Type => 6,
        CmdKind::Setup => 7,
        CmdKind::Tutorial => 8,
        CmdKind::Doctor => 9,
        CmdKind::Permissions => 10,
        CmdKind::LaunchAgent => 11,
        CmdKind::Reset => 12,
    };
    assert(cmds[k] == cmd);
    lemma_help_entries_split(cmds, k);
    let e = help_entry(command_name(cmd), command_about(cmd));
    let (pre, post) = choose|pre: Seq<char>, post: Seq<char>|
        (pre.len() == 0 || pre.last() == '\n') && help_entries(cmds) == pre + e + post;
    let tail = help_entry(
        "help"@,
        "Print this message or the help of the given subcommand(s)"@,
    ) + help_footer();
    let head = help_heading() + pre;
    assert(help(cmds) =~= head + e + (post + tail));
    reveal_strlit(
        "A key event handler \u{2014} runs as a CLI or a background service\n\nUsage: jabberwok [COMMAND]\n\nCommands:\n",
    );
    assert(help_heading().last() == '\n');
    assert(head.last() == '\n') by {
        if pre.len() > 0 {
            assert(head.last() == pre.last());
        } else {
            assert(head =~= help_heading());
        }
    }
    lemma_entry_starts_with_name(command_name(cmd), command_about(cmd));
    lemma_line_in_text(head, e, post + tail, command_name(cmd));
}


/// The word that names a launch-agent action on the command line.
pub open spec fn agent_action_word(a: LaunchAgentAction) -> Seq<char> {
    match a {
        LaunchAgentAction::Install => "install"@,
        LaunchAgentAction::Uninstall => "uninstall"@,
        LaunchAgentAction::Status => "status"@,
    }
}

/// `launch-agent` followed by an action's word parses to that action:
/// parsing is the inverse of naming the action.
#[verifier::spinoff_prover]
pub proof fn lemma_launch_agent_parses_action(prog: Seq<char>, a: LaunchAgentAction)
    ensures
        parse_args(seq![prog, "launch-agent"@, agent_action_word(a)]) == Ok::<
            Option<CommandView>,
            (ErrorKind, Seq<char>),
        >(Some(CommandView::LaunchAgent { action: a })),
{
    reveal_strlit("install");
    reveal_strlit("uninstall");
    reveal_strlit("status");
    reveal_strlit("launch-agent");
    reveal_strlit("--help");
    reveal_strlit("-h");
    reveal_strlit("--version");
    reveal_strlit("-V");
    reveal_strlit("help");
    reveal_strlit("--");
    reveal_strlit("daemon");
    reveal_strlit("list-devices");
    reveal_strlit("record");
    reveal_strlit("select-device");
    reveal_strlit("download-model");
    reveal_strlit("transcribe");
    reveal_strlit("type");
    reveal_strlit("setup");
    reveal_strlit("tutorial");
    reveal_strlit("doctor");
    reveal_strlit("permissions");
    let w = agent_action_word(a);
    let args = seq![prog, "launch-agent"@, w];
    let toks = args.drop_first();
    assert(toks =~= seq!["launch-agent"@, w]);
    let rest = toks.drop_first();
    assert(rest =~= seq![w]);
    assert(command_named("launch-agent"@) == Some(CmdKind::LaunchAgent)) by {
        let cmds = all_commands();
        let n = "launch-agent"@;
        assert(cmds[11] == CmdKind::LaunchAgent);
        assert(find_command(cmds, n, 11) == Some(CmdKind::LaunchAgent));
        assert(command_name(cmds[1])[1] != n[1]);
        assert forall|k: int| 0 <= k < 11 implies command_name(#[trigger] cmds[k]) != n by {
            if k == 1 {
                assert(command_name(cmds[1])[1] != n[1]);
            } else {
                assert(command_name(cmds[k]).len() != n.len());
            }
        }
        assert(find_command(cmds, n, 10) == find_command(cmds, n, 11));
        assert(find_command(cmds, n, 9) == find_command(cmds, n, 10));
        assert(find_command(cmds, n, 8) == find_command(cmds, n, 9));
        assert(find_command(cmds, n, 7) == find_command(cmds, n, 8));
        assert(find_command(cmds, n, 6) == find_command(cmds, n, 7));
        assert(find_command(cmds, n, 5) == find_command(cmds, n, 6));
        assert(find_command(cmds, n, 4) == find_command(cmds, n, 5));
        assert(find_command(cmds, n, 3) == find_command(cmds, n, 4));
        assert(find_command(cmds, n, 2) == find_command(cmds, n, 3));
        assert(find_command(cmds, n, 1) == find_command(cmds, n, 2));
        assert(find_command(cmds, n, 0) == find_command(cmds, n, 1));
    }
    let cmd = CmdKind::LaunchAgent;
    let st0 = initial_scan(cmd);
    assert(!is_flag_token(w));
    assert(w != "--"@);
    assert(w.take(2)[0] == w[0]);
    assert("--"@[0] == '-');
    assert(!starts_with(w, "--"@));
    assert(is_agent_action(w));
    let st1 = Scanned { pos: Some(w), ..st0 };
    assert(scan_step(cmd, rest, 0, st0) == Ok::<(nat, Scanned), (ErrorKind, Seq<char>)>((1, st1)));
    assert(scan(cmd, rest, 1, st1) == Ok::<Scanned, (ErrorKind, Seq<char>)>(st1));
    assert(scan(cmd, rest, 0, st0) == Ok::<Scanned, (ErrorKind, Seq<char>)>(st1));
    assert(agent_action_of(w) == a);
}

} // verus!
