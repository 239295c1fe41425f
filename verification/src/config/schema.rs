//! The application configuration (`jabberwok.toml`) as plain values.
use vstd::prelude::*;
use crate::config::models::ModelsConfig;
use crate::text::{chars_of, join, join_chars, string_of, string_views, trim, trim_chars, views};

verus! {

/// Optional `String` as an optional character sequence.
pub open spec fn opt_view(o: Option<String>) -> Option<Seq<char>> {
    match o {
        Some(s) => Some(s@),
        None => None,
    }
}

pub fn clone_opt(o: &Option<String>) -> (r: Option<String>)
    ensures
        opt_view(r) == opt_view(*o),
{
    match o {
        Some(s) => Some(s.clone()),
        None => None,
    }
}

/// Preferred input and output device names; `None` means the OS default.
#[derive(Debug)]
pub struct DevicePrefs {
    pub input: Option<String>,
    pub output: Option<String>,
}

/// Abstract device preferences.
pub struct PrefsView {
    pub input: Option<Seq<char>>,
    pub output: Option<Seq<char>>,
}

impl View for DevicePrefs {
    type V = PrefsView;

    open spec fn view(&self) -> PrefsView {
        PrefsView { input: opt_view(self.input), output: opt_view(self.output) }
    }
}

impl DevicePrefs {
    /// Both devices at the OS default.
    pub fn os_default() -> (r: DevicePrefs)
        ensures
            r@ == (PrefsView { input: None, output: None }),
    {
        DevicePrefs { input: None, output: None }
    }

    pub fn copy(&self) -> (r: DevicePrefs)
        ensures
            r@ == self@,
    {
        DevicePrefs { input: clone_opt(&self.input), output: clone_opt(&self.output) }
    }
}

impl Clone for DevicePrefs {
    fn clone(&self) -> (r: DevicePrefs)
        ensures
            r@ == self@,
    {
        self.copy()
    }
}

/// The global log level first, then each non-blank per-target directive,
/// all trimmed and joined by commas.
pub open spec fn filter_spec_of(level: Seq<char>, targets: Seq<Seq<char>>) -> Seq<char> {
    join(seq![trim(level)] + nonblank_trimmed(targets), seq![','])
}

/// Trimmed targets, blank ones left out.
pub open spec fn nonblank_trimmed(targets: Seq<Seq<char>>) -> Seq<Seq<char>>
    decreases targets.len(),
{
    if targets.len() == 0 {
        Seq::empty()
    } else {
        let r = nonblank_trimmed(targets.drop_last());
        if trim(targets.last()).len() == 0 {
            r
        } else {
            r.push(trim(targets.last()))
        }
    }
}

/// Logging configuration: a global level and per-target overrides.
#[derive(Debug)]
pub struct LoggingConfig {
    pub level: String,
    pub targets: Vec<String>,
}

impl LoggingConfig {
    /// `warn` globally and `jabberwok=info` for this application.
    pub fn default_config() -> (r: LoggingConfig)
        ensures
            r.level@ == "warn"@,
            string_views(r.targets@) == seq!["jabberwok=info"@],
    {
        let mut targets: Vec<String> = Vec::new();
        targets.push(string_of(chars_of("jabberwok=info").as_slice()));
        let r = LoggingConfig { level: string_of(chars_of("warn").as_slice()), targets };
        assert(string_views(r.targets@) =~= seq!["jabberwok=info"@]);
        r
    }

    /// The tracing filter directive string.
    pub fn filter_spec(&self) -> (r: String)
        ensures
            r@ == filter_spec_of(self.level@, string_views(self.targets@)),
    {
        let mut directives: Vec<Vec<char>> = Vec::new();
        directives.push(trim_chars(chars_of(self.level.as_str()).as_slice()));
        let ghost first = trim(self.level@);
        let ghost ts = string_views(self.targets@);
        let mut i: usize = 0;
        assert(ts.take(0) =~= Seq::<Seq<char>>::empty());
        assert(views(directives@) =~= seq![first] + nonblank_trimmed(ts.take(0)));
        while i < self.targets.len()
            invariant
                i <= self.targets@.len(),
                ts == string_views(self.targets@),
                views(directives@) == seq![first] + nonblank_trimmed(ts.take(i as int)),
            decreases self.targets@.len() - i,
        {
            assert(ts.take(i as int + 1).drop_last() =~= ts.take(i as int));
            assert(ts.take(i as int + 1).last() == self.targets@[i as int]@);
            let t = trim_chars(chars_of(self.targets[i].as_str()).as_slice());
            if t.len() > 0 {
                let ghost before = directives@;
                let ghost tv = t@;
                directives.push(t);
                assert(views(directives@) =~= views(before).push(tv));
            }
            i = i + 1;
        }
        assert(ts.take(self.targets@.len() as int) =~= ts);
        let mut comma: Vec<char> = Vec::new();
        comma.push(',');
        assert(comma@ =~= seq![',']);
        let joined = join_chars(&directives, comma.as_slice());
        string_of(joined.as_slice())
    }
}

/// Whether the first-launch tutorial has been shown.
#[derive(Debug, Clone, Copy, PartialEq, Eq)]
pub struct TutorialConfig {
    pub has_seen_tutorial: bool,
}


impl Default for LoggingConfig {
    fn default() -> (r: LoggingConfig)
        ensures
            r.level@ == "warn"@,
            string_views(r.targets@) == seq!["jabberwok=info"@],
    {
        LoggingConfig::default_config()
    }
}

/// Device preferences of one host.
#[derive(Debug)]
pub struct HostPrefs {
    pub host: String,
    pub prefs: DevicePrefs,
}

/// Host name to preferences; a later entry for a host replaces an earlier
/// one.
pub open spec fn hosts_map(s: Seq<HostPrefs>) -> Map<Seq<char>, PrefsView>
    decreases s.len(),
{
    if s.len() == 0 {
        Map::empty()
    } else {
        hosts_map(s.drop_last()).insert(s.last().host@, s.last().prefs@)
    }
}

/// Position of the last entry for `h`, or -1.
pub open spec fn last_index_of(s: Seq<HostPrefs>, h: Seq<char>) -> int
    decreases s.len(),
{
    if s.len() == 0 {
        -1
    } else if s.last().host@ == h {
        s.len() - 1
    } else {
        last_index_of(s.drop_last(), h)
    }
}

pub proof fn lemma_hosts_map_lookup(s: Seq<HostPrefs>, h: Seq<char>)
    ensures
        -1 <= last_index_of(s, h) < s.len(),
        hosts_map(s).contains_key(h) <==> last_index_of(s, h) >= 0,
        last_index_of(s, h) >= 0 ==> s[last_index_of(s, h)].host@ == h && hosts_map(s)[h]
            == s[last_index_of(s, h)].prefs@,
        forall|k: int| last_index_of(s, h) < k < s.len() ==> s[k].host@ != h,
    decreases s.len(),
{
    if s.len() > 0 {
        lemma_hosts_map_lookup(s.drop_last(), h);
        if s.last().host@ != h {
            assert forall|k: int| last_index_of(s, h) < k < s.len() implies s[k].host@ != h by {
                if k < s.len() - 1 {
                    assert(s[k] == s.drop_last()[k]);
                }
            }
        }
    }
}

pub proof fn lemma_hosts_map_update(s: Seq<HostPrefs>, k: int, e: HostPrefs)
    requires
        0 <= k < s.len(),
        e.host@ == s[k].host@,
        forall|j: int| k < j < s.len() ==> s[j].host@ != e.host@,
    ensures
        hosts_map(s.update(k, e)) == hosts_map(s).insert(e.host@, e.prefs@),
    decreases s.len(),
{
    if k == s.len() - 1 {
        assert(s.update(k, e).drop_last() =~= s.drop_last());
        assert(hosts_map(s.update(k, e)) =~= hosts_map(s).insert(e.host@, e.prefs@));
    } else {
        lemma_hosts_map_update(s.drop_last(), k, e);
        assert(s.update(k, e).drop_last() =~= s.drop_last().update(k, e));
        assert(s.update(k, e).last() == s.last());
        assert(hosts_map(s.update(k, e)) =~= hosts_map(s).insert(e.host@, e.prefs@));
    }
}

/// Per-host device preferences; the host `default` is the fallback.
#[derive(Debug)]
pub struct DevicesConfig {
    pub hosts: Vec<HostPrefs>,
}

impl View for DevicesConfig {
    type V = Map<Seq<char>, PrefsView>;

    open spec fn view(&self) -> Map<Seq<char>, PrefsView> {
        hosts_map(self.hosts@)
    }
}

/// No host has two entries.
pub open spec fn unique_hosts(s: Seq<HostPrefs>) -> bool {
    forall|i: int, j: int| 0 <= i < j < s.len() ==> s[i].host@ != s[j].host@
}

impl DevicesConfig {
    /// Well-formed: each host has at most one entry, as in a map keyed by
    /// host name.
    pub open spec fn wf(&self) -> bool {
        unique_hosts(self.hosts@)
    }

    pub fn new() -> (r: DevicesConfig)
        ensures
            r@ == Map::<Seq<char>, PrefsView>::empty(),
            r.wf(),
    {
        DevicesConfig { hosts: Vec::new() }
    }

    fn find(&self, host: &[char]) -> (r: Option<usize>)
        ensures
            match r {
                Some(k) => k as int == last_index_of(self.hosts@, host@),
                None => last_index_of(self.hosts@, host@) == -1,
            },
    {
        proof {
            lemma_hosts_map_lookup(self.hosts@, host@);
        }
        let mut i = self.hosts.len();
        while i > 0
            invariant
                i <= self.hosts@.len(),
                last_index_of(self.hosts@, host@) < i,
                -1 <= last_index_of(self.hosts@, host@) < self.hosts@.len(),
                last_index_of(self.hosts@, host@) >= 0 ==> self.hosts@[last_index_of(
                    self.hosts@,
                    host@,
                )].host@ == host@,
                forall|k: int|
                    last_index_of(self.hosts@, host@) < k < self.hosts@.len() ==> self.hosts@[k].host@
                        != host@,
            decreases i,
        {
            let name = chars_of(self.hosts[i - 1].host.as_str());
            if crate::text::chars_eq(name.as_slice(), host) {
                return Some(i - 1);
            }
            i = i - 1;
        }
        None
    }

    /// The preferences stored for `host`, if any.
    pub fn get(&self, host: &str) -> (r: Option<&DevicePrefs>)
        ensures
            match r {
                Some(p) => self@.contains_key(host@) && p@ == self@[host@],
                None => !self@.contains_key(host@),
            },
    {
        proof {
            lemma_hosts_map_lookup(self.hosts@, host@);
        }
        let h = chars_of(host);
        match self.find(h.as_slice()) {
            Some(k) => Some(&self.hosts[k].prefs),
            None => None,
        }
    }

    pub fn contains_key(&self, host: &str) -> (r: bool)
        ensures
            r == self@.contains_key(host@),
    {
        self.get(host).is_some()
    }

    /// Stores `prefs` for `host`, replacing what was there.
    pub fn insert(&mut self, host: &str, prefs: DevicePrefs)
        ensures
            final(self)@ == old(self)@.insert(host@, prefs@),
            old(self).wf() ==> final(self).wf(),
    {
        proof {
            lemma_hosts_map_lookup(self.hosts@, host@);
        }
        let h = chars_of(host);
        let entry = HostPrefs { host: host.to_owned(), prefs };
        match self.find(h.as_slice()) {
            Some(k) => {
                proof {
                    lemma_hosts_map_update(self.hosts@, k as int, entry);
                }
                let ghost before = self.hosts@;
                self.hosts.set(k, entry);
                assert(unique_hosts(before) ==> unique_hosts(self.hosts@)) by {
                    if unique_hosts(before) {
                        assert forall|i: int, j: int| 0 <= i < j < self.hosts@.len() implies
                            self.hosts@[i].host@ != self.hosts@[j].host@ by {
                            if i == k {
                                assert(self.hosts@[i].host@ == before[k as int].host@);
                            }
                            if j == k {
                                assert(self.hosts@[j].host@ == before[k as int].host@);
                            }
                        }
                    }
                }
            },
            None => {
                let ghost before = self.hosts@;
                self.hosts.push(entry);
                assert(self.hosts@.drop_last() =~= before);
                assert(unique_hosts(before) ==> unique_hosts(self.hosts@)) by {
                    if unique_hosts(before) {
                        assert forall|i: int, j: int| 0 <= i < j < self.hosts@.len() implies
                            self.hosts@[i].host@ != self.hosts@[j].host@ by {
                            if j == before.len() {
                                assert(before[i].host@ != host@);
                            } else {
                                assert(self.hosts@[i] == before[i]);
                                assert(self.hosts@[j] == before[j]);
                            }
                        }
                    }
                }
            },
        }
    }

    /// Sets the input (or output) preference of `host`, starting from the
    /// OS defaults when the host has no entry yet.
    pub fn set_preference(&mut self, host: &str, is_input: bool, selected: Option<String>)
        ensures
            final(self)@ == old(self)@.insert(
                host@,
                updated_prefs(
                    if old(self)@.contains_key(host@) {
                        old(self)@[host@]
                    } else {
                        PrefsView { input: None, output: None }
                    },
                    is_input,
                    opt_view(selected),
                ),
            ),
            old(self).wf() ==> final(self).wf(),
    {
        let mut prefs = match self.get(host) {
            Some(p) => p.copy(),
            None => DevicePrefs::os_default(),
        };
        if is_input {
            prefs.input = selected;
        } else {
            prefs.output = selected;
        }
        self.insert(host, prefs);
    }
}

/// `p` with its input (or output) replaced by `selected`.
pub open spec fn updated_prefs(p: PrefsView, is_input: bool, selected: Option<Seq<char>>) -> PrefsView {
    if is_input {
        PrefsView { input: selected, output: p.output }
    } else {
        PrefsView { input: p.input, output: selected }
    }
}


impl Default for DevicePrefs {
    fn default() -> (r: DevicePrefs)
        ensures
            r@ == (PrefsView { input: None, output: None }),
    {
        DevicePrefs::os_default()
    }
}

/// The whole application configuration.
#[derive(Debug)]
pub struct JabberwokConfig {
    pub devices: DevicesConfig,
    pub models: ModelsConfig,
    pub logging: LoggingConfig,
    pub tutorial: TutorialConfig,
}

impl JabberwokConfig {
    /// The configuration used when no file exists: no device preferences,
    /// an empty model catalog, default logging, tutorial not yet seen.
    pub fn defaults() -> (r: JabberwokConfig)
        ensures
            r.devices@ == Map::<Seq<char>, PrefsView>::empty(),
            r.devices.wf(),
            r.models@.default is None,
            r.models@.models.len() == 0,
            r.logging.level@ == "warn"@,
            string_views(r.logging.targets@) == seq!["jabberwok=info"@],
            !r.tutorial.has_seen_tutorial,
    {
        let r = JabberwokConfig {
            devices: DevicesConfig::new(),
            models: ModelsConfig { default: None, models: Vec::new() },
            logging: LoggingConfig::default_config(),
            tutorial: TutorialConfig { has_seen_tutorial: false },
        };
        assert(r.models@.models =~= Seq::<crate::config::models::EntryView>::empty());
        r
    }
}

impl Default for JabberwokConfig {
    fn default() -> (r: JabberwokConfig)
        ensures
            r.devices@ == Map::<Seq<char>, PrefsView>::empty(),
            r.devices.wf(),
            r.models@.default is None,
            r.models@.models.len() == 0,
            !r.tutorial.has_seen_tutorial,
    {
        JabberwokConfig::defaults()
    }
}

} // verus!
