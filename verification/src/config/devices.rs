//! Per-host device preferences: which entry applies to this machine and how
//! a new choice is recorded.
use vstd::prelude::*;
use crate::config::schema::{
    opt_view, updated_prefs, DevicePrefs, DevicesConfig, JabberwokConfig, PrefsView,
};
use crate::text::{chars_eq, chars_of, split, split_chars, string_of, string_views, lemma_split_len};

verus! {

/// The system host name, when it can be read and is valid Unicode.
/// Trusted: `hostname::get` followed by `OsString::into_string`; the name
/// comes from the operating system, so nothing is promised about it.
#[verifier::external_body]
fn system_hostname() -> (r: Option<String>) {
    hostname::get().ok().and_then(|h| h.into_string().ok())
}

/// The part of a host name before its first `.`.
pub open spec fn short_host(h: Seq<char>) -> Seq<char> {
    split(h, '.')[0]
}

/// The short host name for a raw host name; `unknown` when none was read.
pub open spec fn host_label(raw: Option<Seq<char>>) -> Seq<char> {
    match raw {
        Some(h) => short_host(h),
        None => "unknown"@,
    }
}

pub fn short_hostname(raw: Option<String>) -> (r: String)
    ensures
        r@ == host_label(opt_view(raw)),
{
    match raw {
        Some(h) => {
            let parts = split_chars(chars_of(h.as_str()).as_slice(), '.');
            proof {
                lemma_split_len(h@, '.');
            }
            assert(parts@[0]@ == split(h@, '.')[0]);
            string_of(parts[0].as_slice())
        },
        None => string_of(chars_of("unknown").as_slice()),
    }
}

/// This machine's short host name, the key of its device preferences:
/// whatever the system reports, its part before the first `.`, or `unknown`.
pub fn current_hostname() -> (r: String)
    ensures
        exists|raw: Option<Seq<char>>| r@ == #[trigger] host_label(raw),
{
    let raw = system_hostname();
    let ghost seen = opt_view(raw);
    let r = short_hostname(raw);
    assert(r@ == host_label(seen));
    r
}

/// Preferences that apply to `host`: its own entry, else the `default`
/// entry, else the OS defaults.
pub open spec fn prefs_for_host(m: Map<Seq<char>, PrefsView>, host: Seq<char>) -> PrefsView {
    if m.contains_key(host) {
        m[host]
    } else if m.contains_key("default"@) {
        m["default"@]
    } else {
        PrefsView { input: None, output: None }
    }
}

pub fn device_prefs_for_current_host(config: &DevicesConfig, host: &str) -> (r: DevicePrefs)
    ensures
        r@ == prefs_for_host(config@, host@),
{
    match config.get(host) {
        Some(p) => p.copy(),
        None => match config.get("default") {
            Some(p) => p.copy(),
            None => DevicePrefs::os_default(),
        },
    }
}

/// Records the user's device choice for `host` in the configuration and in
/// the preferences the running process uses.
pub fn update_device_preference(
    config: &mut JabberwokConfig,
    host: &str,
    cached: &mut DevicePrefs,
    is_input: bool,
    selected: Option<String>,
)
    ensures
        final(config).devices@ == old(config).devices@.insert(
            host@,
            updated_prefs(
                if old(config).devices@.contains_key(host@) {
                    old(config).devices@[host@]
                } else {
                    PrefsView { input: None, output: None }
                },
                is_input,
                opt_view(selected),
            ),
        ),
        final(config).models@ == old(config).models@,
        final(config).tutorial == old(config).tutorial,
        final(config).logging == old(config).logging,
        old(config).devices.wf() ==> final(config).devices.wf(),
        final(cached)@ == updated_prefs(old(cached)@, is_input, opt_view(selected)),
{
    let for_cache = crate::config::schema::clone_opt(&selected);
    config.devices.set_preference(host, is_input, selected);
    if is_input {
        cached.input = for_cache;
    } else {
        cached.output = for_cache;
    }
}


/// Position of the first name equal to `n`, or -1.
pub open spec fn position_of(names: Seq<Seq<char>>, n: Seq<char>) -> int
    decreases names.len(),
{
    if names.len() == 0 {
        -1
    } else if position_of(names.drop_last(), n) >= 0 {
        position_of(names.drop_last(), n)
    } else if names.last() == n {
        names.len() - 1
    } else {
        -1
    }
}

/// Which audio device to open.
#[derive(Debug, Clone, Copy, PartialEq, Eq)]
pub enum DeviceChoice {
    /// The device at this position of the offered list.
    Listed(usize),
    /// The operating system's default device.
    SystemDefault,
}

/// The preferred input (or output) device name.
pub open spec fn preferred(p: PrefsView, is_input: bool) -> Option<Seq<char>> {
    if is_input {
        p.input
    } else {
        p.output
    }
}

/// Picks the device to open among the names the host offers: the preferred
/// one when it is offered (its first occurrence), else the OS default. A
/// preference naming a device that is no longer offered is cleared.
pub fn resolve_device(prefs: &mut DevicePrefs, is_input: bool, available: &[String]) -> (r: DeviceChoice)
    ensures
        match preferred(old(prefs)@, is_input) {
            None => r == DeviceChoice::SystemDefault && final(prefs)@ == old(prefs)@,
            Some(n) => {
                let k = position_of(string_views(available@), n);
                if k >= 0 {
                    r == DeviceChoice::Listed(k as usize) && final(prefs)@ == old(prefs)@
                } else {
                    r == DeviceChoice::SystemDefault && final(prefs)@ == updated_prefs(
                        old(prefs)@,
                        is_input,
                        None,
                    )
                }
            },
        },
{
    let wanted = if is_input {
        crate::config::schema::clone_opt(&prefs.input)
    } else {
        crate::config::schema::clone_opt(&prefs.output)
    };
    let name = match wanted {
        None => {
            return DeviceChoice::SystemDefault;
        },
        Some(n) => chars_of(n.as_str()),
    };
    let ghost names = string_views(available@);
    let mut i: usize = 0;
    assert(names.take(0) =~= Seq::<Seq<char>>::empty());
    while i < available.len()
        invariant
            i <= available@.len(),
            names == string_views(available@),
            position_of(names.take(i as int), name@) == -1,
            preferred(old(prefs)@, is_input) == Some(name@),
            *prefs == *old(prefs),
        decreases available@.len() - i,
    {
        assert(names.take(i as int + 1).drop_last() =~= names.take(i as int));
        assert(names.take(i as int + 1).last() == available@[i as int]@);
        if chars_eq(chars_of(available[i].as_str()).as_slice(), name.as_slice()) {
            assert(position_of(names.take(i as int + 1), name@) == i);
            proof {
                lemma_position_prefix(names, name@, i as int + 1);
            }
            return DeviceChoice::Listed(i);
        }
        i = i + 1;
    }
    assert(names.take(available@.len() as int) =~= names);
    if is_input {
        prefs.input = None;
    } else {
        prefs.output = None;
    }
    DeviceChoice::SystemDefault
}

/// A name found in a prefix is found at the same place in the whole.
proof fn lemma_position_prefix(names: Seq<Seq<char>>, n: Seq<char>, k: int)
    requires
        0 <= k <= names.len(),
        position_of(names.take(k), n) >= 0,
    ensures
        position_of(names, n) == position_of(names.take(k), n),
    decreases names.len() - k,
{
    if k < names.len() {
        assert(names.take(k + 1).drop_last() =~= names.take(k));
        lemma_position_prefix(names, n, k + 1);
    } else {
        assert(names.take(k) =~= names);
    }
}

/// Records, for `hostname`, the preferences in effect after a stale
/// device preference was cleared.
pub fn persist_cleared_device_preference(
    config: &mut JabberwokConfig,
    hostname: &str,
    prefs: &DevicePrefs,
)
    ensures
        final(config).devices@ == old(config).devices@.insert(hostname@, prefs@),
        old(config).devices.wf() ==> final(config).devices.wf(),
        final(config).models@ == old(config).models@,
        final(config).tutorial == old(config).tutorial,
        final(config).logging == old(config).logging,
{
    config.devices.insert(hostname, prefs.copy());
}


/// Once a host's preference is recorded, that host reads back exactly what
/// was recorded, whatever the `default` entry holds.
pub proof fn lemma_preference_read_back(
    m: Map<Seq<char>, PrefsView>,
    host: Seq<char>,
    p: PrefsView,
)
    ensures
        prefs_for_host(m.insert(host, p), host) == p,
{
}

/// A device choice recorded for a host is what that host uses next.
pub proof fn lemma_update_read_back(
    m: Map<Seq<char>, PrefsView>,
    host: Seq<char>,
    is_input: bool,
    selected: Option<Seq<char>>,
)
    ensures
        preferred(
            prefs_for_host(
                m.insert(
                    host,
                    updated_prefs(
                        if m.contains_key(host) {
                            m[host]
                        } else {
                            PrefsView { input: None, output: None }
                        },
                        is_input,
                        selected,
                    ),
                ),
                host,
            ),
            is_input,
        ) == selected,
{
}

/// The device picked for a preference is the one the preference names.
pub proof fn lemma_listed_choice_matches(names: Seq<Seq<char>>, n: Seq<char>)
    ensures
        position_of(names, n) >= 0 ==> position_of(names, n) < names.len() && names[position_of(
            names,
            n,
        )] == n,
    decreases names.len(),
{
    if names.len() > 0 {
        lemma_listed_choice_matches(names.drop_last(), n);
        if position_of(names.drop_last(), n) >= 0 {
            assert(names[position_of(names, n)] == names.drop_last()[position_of(names, n)]);
        }
    }
}


/// A preferred device is found exactly when it is offered, and then at its
/// first occurrence; so `resolve_device` keeps the preference and picks
/// that device whenever the name is offered, and clears the preference
/// only when it is not.
pub proof fn lemma_offered_preference_is_found(names: Seq<Seq<char>>, n: Seq<char>)
    ensures
        names.contains(n) ==> {
            &&& 0 <= position_of(names, n) < names.len()
            &&& names[position_of(names, n)] == n
            &&& forall|j: int| 0 <= j < position_of(names, n) ==> names[j] != n
        },
        !names.contains(n) ==> position_of(names, n) == -1,
    decreases names.len(),
{
    if names.len() > 0 {
        let init = names.drop_last();
        lemma_offered_preference_is_found(init, n);
        if names.contains(n) {
            let w = choose|w: int| 0 <= w < names.len() && names[w] == n;
            if w < names.len() - 1 {
                assert(init[w] == n);
                assert(init.contains(n));
                assert forall|j: int| 0 <= j < position_of(names, n) implies names[j] != n by {
                    assert(names[j] == init[j]);
                }
                assert(names[position_of(names, n)] == init[position_of(init, n)]);
            } else {
                if init.contains(n) {
                    assert forall|j: int| 0 <= j < position_of(names, n) implies names[j] != n by {
                        assert(names[j] == init[j]);
                    }
                    assert(names[position_of(names, n)] == init[position_of(init, n)]);
                } else {
                    assert forall|j: int| 0 <= j < position_of(names, n) implies names[j] != n by {
                        assert(names[j] == init[j]);
                    }
                }
            }
        } else {
            assert(!init.contains(n)) by {
                if init.contains(n) {
                    let w = choose|w: int| 0 <= w < init.len() && init[w] == n;
                    assert(names[w] == n);
                }
            }
            assert(names.last() != n) by {
                if names.last() == n {
                    assert(names[names.len() - 1] == n);
                }
            }
        }
    }
}

} // verus!
