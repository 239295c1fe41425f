//! Audio device inventory, selection of a device by index or name, and the
//! device listing shown to the user.
use vstd::prelude::*;
use crate::config::schema::{opt_view, DevicePrefs, DevicesConfig, PrefsView};
use crate::text::{
    all_digit_chars, push_all, string_of, decimal_chars, chars_eq, quoted, quoted_chars, join, join_strings,
    chars_of, contains, contains_chars, decimal, digits_value, eq_ignore_case,
    eq_ignore_case_chars, lemma_decimal_digits, lower, parse_usize, parse_usize_chars,
    string_views, to_lower_chars,
};

verus! {

/// Names of the audio devices the host offers, and its defaults.
#[derive(Debug, Clone, PartialEq, Eq)]
pub struct DeviceInventory {
    pub default_input_name: Option<String>,
    pub default_output_name: Option<String>,
    pub input_names: Vec<String>,
    pub output_names: Vec<String>,
}

/// Why a device selector could not be resolved.
#[derive(Debug, Clone, PartialEq, Eq)]
pub enum SelectorError {
    /// A 1-based index beyond the list.
    IndexOutOfRange { index: usize, len: usize },
    /// Several devices match the selector.
    Ambiguous { selector: String, matches: Vec<String> },
    /// No device matches the selector.
    NoMatch { selector: String, available: Vec<String> },
}

/// What a selector designates among the device names.
pub enum SelectorOutcome {
    /// Back to the OS default.
    Cleared,
    /// The named device.
    Selected(Seq<char>),
    /// An index (first) beyond the number of devices (second).
    OutOfRange(nat, nat),
    /// The names that match equally well.
    Ambiguous(Seq<Seq<char>>),
    NoMatch,
}

/// Devices whose name equals the selector, ignoring ASCII case.
pub open spec fn exact_matches(devs: Seq<Seq<char>>, sel: Seq<char>) -> Seq<Seq<char>>
    decreases devs.len(),
{
    if devs.len() == 0 {
        Seq::empty()
    } else {
        let r = exact_matches(devs.drop_last(), sel);
        if eq_ignore_case(devs.last(), sel) {
            r.push(devs.last())
        } else {
            r
        }
    }
}

/// Devices whose lower-cased name contains the lower-cased selector.
pub open spec fn partial_matches(devs: Seq<Seq<char>>, sel: Seq<char>) -> Seq<Seq<char>>
    decreases devs.len(),
{
    if devs.len() == 0 {
        Seq::empty()
    } else {
        let r = partial_matches(devs.drop_last(), sel);
        if contains(lower(devs.last()), lower(sel)) {
            r.push(devs.last())
        } else {
            r
        }
    }
}

/// The selector grammar: empty or `0` clears; a number is a 1-based index;
/// otherwise a unique case-insensitive full name, else a unique
/// case-insensitive partial name.
pub open spec fn selector_outcome(devs: Seq<Seq<char>>, sel: Seq<char>) -> SelectorOutcome {
    if sel.len() == 0 || sel == seq!['0'] {
        SelectorOutcome::Cleared
    } else {
        match parse_usize(sel) {
            Some(index) => if index == 0 {
                SelectorOutcome::Cleared
            } else if index <= devs.len() {
                SelectorOutcome::Selected(devs[index - 1])
            } else {
                SelectorOutcome::OutOfRange(index, devs.len())
            },
            None => {
                let exact = exact_matches(devs, sel);
                if exact.len() == 1 {
                    SelectorOutcome::Selected(exact[0])
                } else if exact.len() > 1 {
                    SelectorOutcome::Ambiguous(exact)
                } else {
                    let partial = partial_matches(devs, sel);
                    if partial.len() == 1 {
                        SelectorOutcome::Selected(partial[0])
                    } else if partial.len() == 0 {
                        SelectorOutcome::NoMatch
                    } else {
                        SelectorOutcome::Ambiguous(partial)
                    }
                }
            },
        }
    }
}

/// Resolves a device selector against the device names.
pub fn resolve_device_selector(devices: &[String], selector: &str) -> (r: Result<
    Option<String>,
    SelectorError,
>)
    ensures
        match r {
            Ok(None) => selector_outcome(string_views(devices@), selector@)
                == SelectorOutcome::Cleared,
            Ok(Some(name)) => selector_outcome(string_views(devices@), selector@)
                == SelectorOutcome::Selected(name@),
            Err(SelectorError::IndexOutOfRange { index, len }) => selector_outcome(
                string_views(devices@),
                selector@,
            ) == SelectorOutcome::OutOfRange(index as nat, len as nat),
            Err(SelectorError::Ambiguous { selector: s, matches }) => selector_outcome(
                string_views(devices@),
                selector@,
            ) == SelectorOutcome::Ambiguous(string_views(matches@)) && s@ == selector@,
            Err(SelectorError::NoMatch { selector: s, available }) => selector_outcome(
                string_views(devices@),
                selector@,
            ) == SelectorOutcome::NoMatch && s@ == selector@ && string_views(available@)
                == string_views(devices@),
        },
{
    let ghost devs = string_views(devices@);
    let sel = chars_of(selector);
    if sel.len() == 0 || (sel.len() == 1 && sel[0] == '0') {
        assert(sel.len() == 1 ==> sel@ =~= seq!['0']);
        return Ok(None);
    }
    assert(sel@ != seq!['0']);
    if let Some(index) = parse_usize_chars(sel.as_slice()) {
        if index == 0 {
            return Ok(None);
        }
        if index <= devices.len() {
            assert(devs[index - 1] == devices@[index - 1]@);
            return Ok(Some(devices[index - 1].clone()));
        }
        return Err(SelectorError::IndexOutOfRange { index, len: devices.len() });
    }
    let mut exact: Vec<String> = Vec::new();
    let mut i: usize = 0;
    assert(devs.take(0) =~= Seq::<Seq<char>>::empty());
    while i < devices.len()
        invariant
            i <= devices@.len(),
            devs == string_views(devices@),
            string_views(exact@) == exact_matches(devs.take(i as int), sel@),
        decreases devices@.len() - i,
    {
        assert(devs.take(i as int + 1).drop_last() =~= devs.take(i as int));
        assert(devs.take(i as int + 1).last() == devices@[i as int]@);
        let name = chars_of(devices[i].as_str());
        if eq_ignore_case_chars(name.as_slice(), sel.as_slice()) {
            let ghost before = exact@;
            exact.push(devices[i].clone());
            assert(string_views(exact@) =~= string_views(before).push(devices@[i as int]@));
        }
        i = i + 1;
    }
    assert(devs.take(devices@.len() as int) =~= devs);
    if exact.len() == 1 {
        assert(string_views(exact@)[0] == exact@[0]@);
        return Ok(Some(exact[0].clone()));
    }
    if exact.len() > 1 {
        return Err(SelectorError::Ambiguous { selector: string_from_str(selector), matches: exact });
    }
    let sel_lower = to_lower_chars(sel.as_slice());
    let mut partial: Vec<String> = Vec::new();
    let mut i: usize = 0;
    while i < devices.len()
        invariant
            i <= devices@.len(),
            devs == string_views(devices@),
            sel_lower@ == lower(sel@),
            string_views(partial@) == partial_matches(devs.take(i as int), sel@),
        decreases devices@.len() - i,
    {
        assert(devs.take(i as int + 1).drop_last() =~= devs.take(i as int));
        assert(devs.take(i as int + 1).last() == devices@[i as int]@);
        let name = chars_of(devices[i].as_str());
        let name_lower = to_lower_chars(name.as_slice());
        if contains_chars(name_lower.as_slice(), sel_lower.as_slice()) {
            let ghost before = partial@;
            partial.push(devices[i].clone());
            assert(string_views(partial@) =~= string_views(before).push(devices@[i as int]@));
        }
        i = i + 1;
    }
    if partial.len() == 1 {
        assert(string_views(partial@)[0] == partial@[0]@);
        return Ok(Some(partial[0].clone()));
    }
    if partial.len() == 0 {
        let available = copy_strings(devices);
        return Err(SelectorError::NoMatch { selector: string_from_str(selector), available });
    }
    Err(SelectorError::Ambiguous { selector: string_from_str(selector), matches: partial })
}

fn string_from_str(s: &str) -> (r: String)
    ensures
        r@ == s@,
{
    s.to_owned()
}

fn copy_strings(v: &[String]) -> (r: Vec<String>)
    ensures
        string_views(r@) == string_views(v@),
{
    let mut r: Vec<String> = Vec::new();
    let mut i: usize = 0;
    while i < v.len()
        invariant
            i <= v@.len(),
            string_views(r@) == string_views(v@).take(i as int),
        decreases v@.len() - i,
    {
        let ghost before = r@;
        let c = v[i].clone();
        assert(c@ == v@[i as int]@);
        r.push(c);
        assert(string_views(r@) =~= string_views(before).push(v@[i as int]@));
        assert(string_views(v@).take(i as int + 1) =~= string_views(v@).take(i as int).push(
            v@[i as int]@,
        ));
        i = i + 1;
    }
    assert(string_views(v@).take(v@.len() as int) =~= string_views(v@));
    r
}


/// The index column: the 1-based position right-aligned in two columns.
pub open spec fn index_column(n: nat) -> Seq<char> {
    if decimal(n).len() < 2 {
        seq![' '] + decimal(n)
    } else {
        decimal(n)
    }
}

pub open spec fn opt_eq(o: Option<Seq<char>>, s: Seq<char>) -> bool {
    match o {
        Some(x) => x == s,
        None => false,
    }
}

/// One listing line: index, `*` when the device is the selected one (or the
/// default one while nothing is selected), name, and ` (default)` for the
/// OS default device.
pub open spec fn device_line(
    i: nat,
    name: Seq<char>,
    default_name: Option<Seq<char>>,
    selected_name: Option<Seq<char>>,
) -> Seq<char> {
    let selected = opt_eq(selected_name, name);
    let defaulted = opt_eq(default_name, name);
    let marker = if selected || (selected_name is None && defaulted) {
        '*'
    } else {
        ' '
    };
    index_column(i + 1) + seq![marker] + "  "@ + name + if defaulted {
        " (default)"@
    } else {
        Seq::empty()
    }
}

pub open spec fn device_lines(
    names: Seq<Seq<char>>,
    default_name: Option<Seq<char>>,
    selected_name: Option<Seq<char>>,
) -> Seq<Seq<char>> {
    Seq::new(names.len(), |i: int| device_line(i as nat, names[i], default_name, selected_name))
}

fn opt_eq_exec(o: &Option<String>, s: &[char]) -> (r: bool)
    ensures
        r == opt_eq(opt_view(*o), s@),
{
    match o {
        Some(x) => chars_eq(chars_of(x.as_str()).as_slice(), s),
        None => false,
    }
}

pub fn format_device_lines(
    names: &[String],
    default_name: &Option<String>,
    selected_name: &Option<String>,
) -> (r: Vec<String>)
    ensures
        string_views(r@) == device_lines(
            string_views(names@),
            opt_view(*default_name),
            opt_view(*selected_name),
        ),
{
    let ghost target = device_lines(
        string_views(names@),
        opt_view(*default_name),
        opt_view(*selected_name),
    );
    let mut out: Vec<String> = Vec::new();
    let mut i: usize = 0;
    while i < names.len()
        invariant
            i <= names@.len(),
            target == device_lines(
                string_views(names@),
                opt_view(*default_name),
                opt_view(*selected_name),
            ),
            string_views(out@) == target.take(i as int),
        decreases names@.len() - i,
    {
        let name = chars_of(names[i].as_str());
        let selected = opt_eq_exec(selected_name, name.as_slice());
        let defaulted = opt_eq_exec(default_name, name.as_slice());
        let marker = if selected || (selected_name.is_none() && defaulted) {
            '*'
        } else {
            ' '
        };
        assert(i < usize::MAX);
        let num = decimal_chars((i + 1) as u64);
        let mut line: Vec<char> = Vec::new();
        if num.len() < 2 {
            line.push(' ');
        }
        push_all(&mut line, num.as_slice());
        line.push(marker);
        push_all(&mut line, chars_of("  ").as_slice());
        push_all(&mut line, name.as_slice());
        if defaulted {
            push_all(&mut line, chars_of(" (default)").as_slice());
        }
        assert(line@ =~= device_line(
            i as nat,
            names@[i as int]@,
            opt_view(*default_name),
            opt_view(*selected_name),
        ));
        let ghost before = out@;
        out.push(string_of(line.as_slice()));
        assert(string_views(out@) =~= string_views(before).push(target[i as int]));
        i = i + 1;
        assert(target.take(i as int) =~= target.take(i - 1).push(target[i - 1]));
    }
    assert(target.take(names@.len() as int) =~= target);
    out
}

/// The listing printed by `list-devices`.
pub open spec fn listing(
    outputs: Seq<Seq<char>>,
    default_output: Option<Seq<char>>,
    inputs: Seq<Seq<char>>,
    default_input: Option<Seq<char>>,
    prefs: PrefsView,
    hostname: Seq<char>,
    from_fallback: bool,
) -> Seq<Seq<char>> {
    let header = if from_fallback {
        "Devices for host: "@ + hostname + " (using \"default\" config)"@
    } else {
        "Devices for host: "@ + hostname
    };
    seq![header, Seq::empty(), "Output devices:"@] + device_lines(
        outputs,
        default_output,
        prefs.output,
    ) + seq![Seq::empty(), "Input devices:"@] + device_lines(inputs, default_input, prefs.input)
        + seq![Seq::empty(), "* = currently active or selected"@]
}

fn push_line(out: &mut Vec<String>, line: &str)
    ensures
        string_views(final(out)@) == string_views(old(out)@).push(line@),
{
    let ghost before = out@;
    out.push(line.to_owned());
    assert(string_views(out@) =~= string_views(before).push(line@));
}

fn push_lines(out: &mut Vec<String>, lines: Vec<String>)
    ensures
        string_views(final(out)@) == string_views(old(out)@) + string_views(lines@),
{
    let mut i: usize = 0;
    while i < lines.len()
        invariant
            i <= lines@.len(),
            string_views(out@) == string_views(old(out)@) + string_views(lines@).take(i as int),
        decreases lines@.len() - i,
    {
        let ghost before = out@;
        let l = lines[i].clone();
        assert(l@ == lines@[i as int]@);
        out.push(l);
        assert(string_views(out@) =~= string_views(before).push(lines@[i as int]@));
        i = i + 1;
        assert(string_views(lines@).take(i as int) =~= string_views(lines@).take(i - 1).push(
            lines@[i - 1]@,
        ));
    }
    assert(string_views(lines@).take(lines@.len() as int) =~= string_views(lines@));
}

pub fn list_device_lines(
    inventory: &DeviceInventory,
    prefs: &DevicePrefs,
    hostname: &str,
    from_fallback: bool,
) -> (r: Vec<String>)
    ensures
        string_views(r@) == listing(
            string_views(inventory.output_names@),
            opt_view(inventory.default_output_name),
            string_views(inventory.input_names@),
            opt_view(inventory.default_input_name),
            prefs@,
            hostname@,
            from_fallback,
        ),
{
    let mut header = chars_of("Devices for host: ");
    push_all(&mut header, chars_of(hostname).as_slice());
    if from_fallback {
        push_all(&mut header, chars_of(" (using \"default\" config)").as_slice());
    }
    let mut lines: Vec<String> = Vec::new();
    let ghost h = header@;
    let hs = string_of(header.as_slice());
    lines.push(hs);
    assert(string_views(lines@) =~= seq![h]);
    proof {
        reveal_strlit("");
    }
    assert(""@ =~= Seq::<char>::empty());
    push_line(&mut lines, "");
    push_line(&mut lines, "Output devices:");
    let ghost a = string_views(lines@);
    assert(a =~= seq![h, Seq::empty(), "Output devices:"@]);
    let outs = format_device_lines(
        inventory.output_names.as_slice(),
        &inventory.default_output_name,
        &prefs.output,
    );
    let ghost o = string_views(outs@);
    push_lines(&mut lines, outs);
    push_line(&mut lines, "");
    push_line(&mut lines, "Input devices:");
    let ghost b = string_views(lines@);
    assert(b =~= a + o + seq![Seq::empty(), "Input devices:"@]);
    let ins = format_device_lines(
        inventory.input_names.as_slice(),
        &inventory.default_input_name,
        &prefs.input,
    );
    let ghost n = string_views(ins@);
    push_lines(&mut lines, ins);
    push_line(&mut lines, "");
    push_line(&mut lines, "* = currently active or selected");
    assert(string_views(lines@) =~= b + n + seq![Seq::empty(), "* = currently active or selected"@]);
    lines
}


impl SelectorError {
    /// The sentence shown to the user.
    pub fn message(&self) -> (r: String)
        ensures
            r@ == selector_message(*self),
    {
        let mut m: Vec<char>;
        match self {
            SelectorError::IndexOutOfRange { index, len } => {
                m = chars_of("device index ");
                push_all(&mut m, decimal_chars(*index as u64).as_slice());
                push_all(&mut m, chars_of(" is out of range; expected 1..=").as_slice());
                push_all(&mut m, decimal_chars(*len as u64).as_slice());
            },
            SelectorError::Ambiguous { selector, matches } => {
                m = chars_of("ambiguous selector ");
                push_all(&mut m, quoted_chars(chars_of(selector.as_str()).as_slice()).as_slice());
                push_all(&mut m, chars_of("; matches: ").as_slice());
                push_all(&mut m, join_strings(matches.as_slice(), ", ").as_slice());
            },
            SelectorError::NoMatch { selector, available } => {
                m = chars_of("no device matched ");
                push_all(&mut m, quoted_chars(chars_of(selector.as_str()).as_slice()).as_slice());
                push_all(&mut m, chars_of("; available: ").as_slice());
                push_all(&mut m, join_strings(available.as_slice(), ", ").as_slice());
            },
        }
        string_of(m.as_slice())
    }
}

/// Whether `e` is the error that `resolve_device_selector` reports for
/// `sel` among `devs`.
pub open spec fn reports(e: SelectorError, devs: Seq<Seq<char>>, sel: Seq<char>) -> bool {
    match e {
        SelectorError::IndexOutOfRange { index, len } => selector_outcome(devs, sel)
            == SelectorOutcome::OutOfRange(index as nat, len as nat),
        SelectorError::Ambiguous { selector: s, matches } => selector_outcome(devs, sel)
            == SelectorOutcome::Ambiguous(string_views(matches@)) && s@ == sel,
        SelectorError::NoMatch { selector: s, available } => selector_outcome(devs, sel)
            == SelectorOutcome::NoMatch && s@ == sel && string_views(available@) == devs,
    }
}

/// The device a selector designates: `Some(None)` clears the preference,
/// `Some(Some(name))` selects `name`, `None` is an error.
pub open spec fn resolution(devs: Seq<Seq<char>>, sel: Seq<char>) -> Option<Option<Seq<char>>> {
    match selector_outcome(devs, sel) {
        SelectorOutcome::Cleared => Some(None),
        SelectorOutcome::Selected(n) => Some(Some(n)),
        _ => None,
    }
}

pub open spec fn opt_str_view(o: Option<&str>) -> Option<Seq<char>> {
    match o {
        Some(s) => Some(s@),
        None => None,
    }
}

/// Why `select_device` changed nothing.
#[derive(Debug)]
pub enum SelectDeviceError {
    /// Neither an input nor an output selector was given.
    MissingSelector,
    /// A selector did not designate a device.
    Selector(SelectorError),
}

impl SelectDeviceError {
    pub fn message(&self) -> (r: String)
        ensures
            r@ == match self {
                SelectDeviceError::MissingSelector => "select-device requires --input and/or --output"@,
                SelectDeviceError::Selector(e) => selector_message(*e),
            },
    {
        match self {
            SelectDeviceError::MissingSelector => {
                "select-device requires --input and/or --output".to_string()
            },
            SelectDeviceError::Selector(e) => e.message(),
        }
    }
}

pub open spec fn selector_message(e: SelectorError) -> Seq<char> {
    match e {
        SelectorError::IndexOutOfRange { index, len } => "device index "@ + decimal(index as nat)
            + " is out of range; expected 1..="@ + decimal(len as nat),
        SelectorError::Ambiguous { selector, matches } => "ambiguous selector "@ + quoted(selector@)
            + "; matches: "@ + join(string_views(matches@), ", "@),
        SelectorError::NoMatch { selector, available } => "no device matched "@ + quoted(
            selector@,
        ) + "; available: "@ + join(string_views(available@), ", "@),
    }
}

/// The preferences of `host` after `select_device` applied the resolved
/// input (when an input selector was given) and output (likewise).
pub open spec fn selected_prefs(
    old_prefs: Map<Seq<char>, PrefsView>,
    host: Seq<char>,
    input: Option<Option<Seq<char>>>,
    output: Option<Option<Seq<char>>>,
) -> PrefsView {
    let base = if old_prefs.contains_key(host) {
        old_prefs[host]
    } else {
        PrefsView { input: None, output: None }
    };
    PrefsView {
        input: match input {
            Some(i) => i,
            None => base.input,
        },
        output: match output {
            Some(o) => o,
            None => base.output,
        },
    }
}

/// Resolves the input and output selectors against the inventory and, when
/// both resolve, records the choices for `target_host`. Returns the names
/// chosen (`None` where a selector cleared the preference or was absent).
pub fn select_device(
    input_selector: Option<&str>,
    output_selector: Option<&str>,
    target_host: &str,
    inventory: &DeviceInventory,
    config: &mut DevicesConfig,
) -> (r: Result<(Option<String>, Option<String>), SelectDeviceError>)
    ensures
        ({
            let ins = string_views(inventory.input_names@);
            let outs = string_views(inventory.output_names@);
            let isel = opt_str_view(input_selector);
            let osel = opt_str_view(output_selector);
            match r {
                Ok((ri, ro)) => {
                    &&& (isel is Some || osel is Some)
                    &&& (isel matches Some(s) ==> resolution(ins, s) is Some)
                    &&& (osel matches Some(s) ==> resolution(outs, s) is Some)
                    &&& opt_view(ri) == match isel {
                        Some(s) => resolution(ins, s).unwrap(),
                        None => None,
                    }
                    &&& opt_view(ro) == match osel {
                        Some(s) => resolution(outs, s).unwrap(),
                        None => None,
                    }
                    &&& final(config)@ == old(config)@.insert(
                        target_host@,
                        selected_prefs(
                            old(config)@,
                            target_host@,
                            match isel {
                                Some(s) => resolution(ins, s),
                                None => None,
                            },
                            match osel {
                                Some(s) => resolution(outs, s),
                                None => None,
                            },
                        ),
                    )
                },
                Err(SelectDeviceError::MissingSelector) => {
                    &&& isel is None && osel is None
                    &&& final(config)@ == old(config)@
                },
                Err(SelectDeviceError::Selector(e)) => {
                    &&& final(config)@ == old(config)@
                    &&& match isel {
                        Some(s) => if resolution(ins, s) is None {
                            reports(e, ins, s)
                        } else {
                            osel matches Some(t) && resolution(outs, t) is None && reports(
                                e,
                                outs,
                                t,
                            )
                        },
                        None => osel matches Some(t) && resolution(outs, t) is None && reports(
                            e,
                            outs,
                            t,
                        ),
                    }
                },
            }
        }),
        old(config).wf() ==> final(config).wf(),
{
    if input_selector.is_none() && output_selector.is_none() {
        return Err(SelectDeviceError::MissingSelector);
    }
    let resolved_input = match input_selector {
        Some(selector) => match resolve_device_selector(inventory.input_names.as_slice(), selector) {
            Ok(name) => name,
            Err(e) => {
                return Err(SelectDeviceError::Selector(e));
            },
        },
        None => None,
    };
    let resolved_output = match output_selector {
        Some(selector) => match resolve_device_selector(inventory.output_names.as_slice(), selector) {
            Ok(name) => name,
            Err(e) => {
                return Err(SelectDeviceError::Selector(e));
            },
        },
        None => None,
    };
    let mut prefs = match config.get(target_host) {
        Some(p) => p.copy(),
        None => DevicePrefs::os_default(),
    };
    if input_selector.is_some() {
        prefs.input = crate::config::schema::clone_opt(&resolved_input);
    }
    if output_selector.is_some() {
        prefs.output = crate::config::schema::clone_opt(&resolved_output);
    }
    config.insert(target_host, prefs);
    Ok((resolved_input, resolved_output))
}


proof fn lemma_exact_matches_listed(devs: Seq<Seq<char>>, sel: Seq<char>)
    ensures
        forall|k: int|
            0 <= k < exact_matches(devs, sel).len() ==> devs.contains(
                #[trigger] exact_matches(devs, sel)[k],
            ),
    decreases devs.len(),
{
    if devs.len() > 0 {
        lemma_exact_matches_listed(devs.drop_last(), sel);
        let r = exact_matches(devs.drop_last(), sel);
        assert forall|k: int| 0 <= k < exact_matches(devs, sel).len() implies devs.contains(
            #[trigger] exact_matches(devs, sel)[k],
        ) by {
            if k < r.len() {
                let j = choose|j: int| 0 <= j < devs.drop_last().len() && devs.drop_last()[j] == r[k];
                assert(devs[j] == r[k]);
            } else {
                assert(devs[devs.len() - 1] == devs.last());
            }
        }
    }
}

proof fn lemma_partial_matches_listed(devs: Seq<Seq<char>>, sel: Seq<char>)
    ensures
        forall|k: int|
            0 <= k < partial_matches(devs, sel).len() ==> devs.contains(
                #[trigger] partial_matches(devs, sel)[k],
            ),
    decreases devs.len(),
{
    if devs.len() > 0 {
        lemma_partial_matches_listed(devs.drop_last(), sel);
        let r = partial_matches(devs.drop_last(), sel);
        assert forall|k: int| 0 <= k < partial_matches(devs, sel).len() implies devs.contains(
            #[trigger] partial_matches(devs, sel)[k],
        ) by {
            if k < r.len() {
                let j = choose|j: int| 0 <= j < devs.drop_last().len() && devs.drop_last()[j] == r[k];
                assert(devs[j] == r[k]);
            } else {
                assert(devs[devs.len() - 1] == devs.last());
            }
        }
    }
}

/// A selector only ever selects one of the listed devices.
pub proof fn lemma_selection_is_listed(devs: Seq<Seq<char>>, sel: Seq<char>)
    ensures
        selector_outcome(devs, sel) matches SelectorOutcome::Selected(name) ==> devs.contains(name),
{
    lemma_exact_matches_listed(devs, sel);
    lemma_partial_matches_listed(devs, sel);
    if let Some(index) = parse_usize(sel) {
        if 1 <= index <= devs.len() {
            assert(devs[index - 1] == devs[index - 1]);
        }
    }
}

/// The decimal number `k` of a listed device (1-based) selects that device.
pub proof fn lemma_index_selects(devs: Seq<Seq<char>>, k: nat)
    requires
        1 <= k <= devs.len(),
        k <= usize::MAX,
    ensures
        selector_outcome(devs, decimal(k)) == SelectorOutcome::Selected(devs[k - 1]),
{
    crate::text::lemma_decimal_digits(k);
    let d = decimal(k);
    assert(d.len() > 0);
    if d == seq!['0'] {
        assert(crate::text::digits_value(seq!['0']) == 0) by {
            assert(seq!['0'].drop_last() =~= Seq::<char>::empty());
            assert(seq!['0'].last() == '0');
            assert(crate::text::digits_value(Seq::<char>::empty()) == 0);
            assert(crate::text::digit_value('0') == 0);
        }
    }
    assert(parse_usize(d) == Some(k));
}

/// Choosing a device for one host leaves every other host's preferences
/// as they were.
pub proof fn lemma_selection_keeps_other_hosts(
    old_prefs: Map<Seq<char>, PrefsView>,
    host: Seq<char>,
    input: Option<Option<Seq<char>>>,
    output: Option<Option<Seq<char>>>,
    other: Seq<char>,
)
    requires
        other != host,
    ensures
        old_prefs.insert(host, selected_prefs(old_prefs, host, input, output)).contains_key(other)
            == old_prefs.contains_key(other),
        old_prefs.contains_key(other) ==> old_prefs.insert(
            host,
            selected_prefs(old_prefs, host, input, output),
        )[other] == old_prefs[other],
{
}

/// A selection that names only the output keeps the host's input
/// preference (and the other way round).
pub proof fn lemma_selection_keeps_unnamed_side(
    old_prefs: Map<Seq<char>, PrefsView>,
    host: Seq<char>,
    choice: Option<Seq<char>>,
)
    requires
        old_prefs.contains_key(host),
    ensures
        selected_prefs(old_prefs, host, None, Some(choice)).input == old_prefs[host].input,
        selected_prefs(old_prefs, host, None, Some(choice)).output == choice,
        selected_prefs(old_prefs, host, Some(choice), None).output == old_prefs[host].output,
        selected_prefs(old_prefs, host, Some(choice), None).input == choice,
{
}


proof fn lemma_exact_matches_none(devs: Seq<Seq<char>>, sel: Seq<char>)
    requires
        forall|j: int| 0 <= j < devs.len() ==> !eq_ignore_case(#[trigger] devs[j], sel),
    ensures
        exact_matches(devs, sel).len() == 0,
    decreases devs.len(),
{
    if devs.len() > 0 {
        assert(!eq_ignore_case(devs[devs.len() - 1], sel));
        lemma_exact_matches_none(devs.drop_last(), sel);
    }
}

proof fn lemma_exact_matches_unique(devs: Seq<Seq<char>>, sel: Seq<char>, k: int)
    requires
        0 <= k < devs.len(),
        eq_ignore_case(devs[k], sel),
        forall|j: int| 0 <= j < devs.len() && j != k ==> !eq_ignore_case(#[trigger] devs[j], sel),
    ensures
        exact_matches(devs, sel) == seq![devs[k]],
    decreases devs.len(),
{
    let init = devs.drop_last();
    if k == devs.len() - 1 {
        lemma_exact_matches_none(init, sel);
        assert(exact_matches(init, sel) =~= Seq::<Seq<char>>::empty());
        assert(exact_matches(devs, sel) =~= seq![devs[k]]);
    } else {
        assert(!eq_ignore_case(devs[devs.len() - 1], sel));
        lemma_exact_matches_unique(init, sel, k);
    }
}

/// A selector that is not a number and equals, ignoring ASCII case, the
/// name of exactly one listed device selects that device.
pub proof fn lemma_unique_name_selects(devs: Seq<Seq<char>>, sel: Seq<char>, k: int)
    requires
        sel.len() > 0,
        parse_usize(sel) is None,
        0 <= k < devs.len(),
        eq_ignore_case(devs[k], sel),
        forall|j: int| 0 <= j < devs.len() && j != k ==> !eq_ignore_case(#[trigger] devs[j], sel),
    ensures
        resolution(devs, sel) == Some(Some(devs[k])),
{
    lemma_exact_matches_unique(devs, sel, k);
    if sel == seq!['0'] {
        assert(all_digit_chars(sel));
        assert(sel.drop_last() =~= Seq::<char>::empty());
        assert(digits_value(sel.drop_last()) == 0);
        assert(digits_value(sel) == 0);
        assert(parse_usize(sel) is Some);
    }
}

} // verus!
