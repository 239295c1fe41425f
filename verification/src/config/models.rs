//! The model catalog: known models, where they are installed, and which one
//! is the default.
use vstd::prelude::*;
use crate::config::schema::{clone_opt, opt_view};
use crate::text::{
    chars_eq, chars_of, ends_with, ends_with_chars, join, join_strings,
    lemma_split_len, push_all, quoted, quoted_chars, split, split_chars, split_once,
    split_once_chars, string_of, string_views, sub_vec,
};

verus! {

/// One model the configuration knows about.
#[derive(Debug)]
pub struct ModelEntry {
    pub name: String,
    pub url: String,
    pub sha256: Option<String>,
    /// Set after the model is downloaded; absent for catalog-only entries.
    pub path: Option<String>,
}

/// Abstract model entry.
pub struct EntryView {
    pub name: Seq<char>,
    pub url: Seq<char>,
    pub sha256: Option<Seq<char>>,
    pub path: Option<Seq<char>>,
}

impl View for ModelEntry {
    type V = EntryView;

    open spec fn view(&self) -> EntryView {
        EntryView {
            name: self.name@,
            url: self.url@,
            sha256: opt_view(self.sha256),
            path: opt_view(self.path),
        }
    }
}

impl ModelEntry {
    pub fn copy(&self) -> (r: ModelEntry)
        ensures
            r@ == self@,
    {
        ModelEntry {
            name: self.name.clone(),
            url: self.url.clone(),
            sha256: clone_opt(&self.sha256),
            path: clone_opt(&self.path),
        }
    }
}

impl Clone for ModelEntry {
    fn clone(&self) -> (r: ModelEntry)
        ensures
            r@ == self@,
    {
        self.copy()
    }
}

pub open spec fn entry_views(s: Seq<ModelEntry>) -> Seq<EntryView> {
    s.map_values(|e: ModelEntry| e@)
}

/// The `[models]` table as stored in the application configuration.
#[derive(Debug)]
pub struct ModelsConfig {
    pub default: Option<String>,
    pub models: Vec<ModelEntry>,
}

/// The model catalog as used by the commands.
#[derive(Debug)]
pub struct ModelConfig {
    pub default: Option<String>,
    pub models: Vec<ModelEntry>,
}

/// Abstract catalog: the default model's name and the entries in order.
pub struct CatalogView {
    pub default: Option<Seq<char>>,
    pub models: Seq<EntryView>,
}

impl View for ModelConfig {
    type V = CatalogView;

    open spec fn view(&self) -> CatalogView {
        CatalogView { default: opt_view(self.default), models: entry_views(self.models@) }
    }
}

impl View for ModelsConfig {
    type V = CatalogView;

    open spec fn view(&self) -> CatalogView {
        CatalogView { default: opt_view(self.default), models: entry_views(self.models@) }
    }
}

impl From<ModelsConfig> for ModelConfig {
    fn from(config: ModelsConfig) -> (r: ModelConfig) {
        ModelConfig { default: config.default, models: config.models }
    }
}

impl vstd::std_specs::convert::FromSpecImpl<ModelsConfig> for ModelConfig {
    open spec fn obeys_from_spec() -> bool {
        true
    }

    open spec fn from_spec(config: ModelsConfig) -> ModelConfig {
        ModelConfig { default: config.default, models: config.models }
    }
}

impl From<ModelConfig> for ModelsConfig {
    fn from(config: ModelConfig) -> (r: ModelsConfig) {
        ModelsConfig { default: config.default, models: config.models }
    }
}

impl vstd::std_specs::convert::FromSpecImpl<ModelConfig> for ModelsConfig {
    open spec fn obeys_from_spec() -> bool {
        true
    }

    open spec fn from_spec(config: ModelConfig) -> ModelsConfig {
        ModelsConfig { default: config.default, models: config.models }
    }
}

/// Position of the first entry named `name`, or -1.
pub open spec fn first_named(s: Seq<EntryView>, name: Seq<char>) -> int
    decreases s.len(),
{
    if s.len() == 0 {
        -1
    } else if s[0].name == name {
        0
    } else {
        let r = first_named(s.drop_first(), name);
        if r < 0 {
            -1
        } else {
            r + 1
        }
    }
}

pub proof fn lemma_first_named(s: Seq<EntryView>, name: Seq<char>)
    ensures
        -1 <= first_named(s, name) < s.len(),
        first_named(s, name) >= 0 ==> s[first_named(s, name)].name == name,
        forall|k: int|
            0 <= k < s.len() && (first_named(s, name) < 0 || k < first_named(s, name))
                ==> s[k].name != name,
    decreases s.len(),
{
    if s.len() > 0 {
        lemma_first_named(s.drop_first(), name);
        assert forall|k: int|
            0 <= k < s.len() && (first_named(s, name) < 0 || k < first_named(s, name)) implies s[k].name
            != name by {
            if k > 0 {
                assert(s[k] == s.drop_first()[k - 1]);
            }
        }
    }
}

/// The entry a lookup by name finds: the first one with that name.
pub open spec fn lookup(c: CatalogView, name: Seq<char>) -> Option<EntryView> {
    let k = first_named(c.models, name);
    if k < 0 {
        None
    } else {
        Some(c.models[k])
    }
}

/// The install path of the default model, when the default names an entry
/// that has a path.
pub open spec fn default_path(c: CatalogView) -> Option<Seq<char>> {
    match c.default {
        None => None,
        Some(name) => match lookup(c, name) {
            None => None,
            Some(e) => e.path,
        },
    }
}

impl Default for ModelConfig {
    fn default() -> (r: ModelConfig)
        ensures
            r@.default is None,
            r@.models.len() == 0,
    {
        ModelConfig::empty()
    }
}

impl ModelConfig {
    pub fn empty() -> (r: ModelConfig)
        ensures
            r@.default is None,
            r@.models.len() == 0,
    {
        let r = ModelConfig { default: None, models: Vec::new() };
        assert(r@.models =~= Seq::<EntryView>::empty());
        r
    }

    /// Index of the first entry named `name`.
    pub fn position(&self, name: &str) -> (r: Option<usize>)
        ensures
            match r {
                Some(k) => k as int == first_named(self@.models, name@) && k < self.models@.len(),
                None => first_named(self@.models, name@) == -1,
            },
    {
        let ghost ms = entry_views(self.models@);
        assert(ms == self@.models);
        proof {
            lemma_first_named(ms, name@);
        }
        let n = chars_of(name);
        let mut i: usize = 0;
        while i < self.models.len()
            invariant
                i <= self.models@.len(),
                ms == entry_views(self.models@),
                ms.len() == self.models@.len(),
                n@ == name@,
                forall|k: int| 0 <= k < i ==> ms[k].name != name@,
                -1 <= first_named(ms, name@) < ms.len(),
                first_named(ms, name@) >= 0 ==> ms[first_named(ms, name@)].name == name@,
                forall|k: int|
                    0 <= k < ms.len() && (first_named(ms, name@) < 0 || k < first_named(
                        ms,
                        name@,
                    )) ==> ms[k].name != name@,
            decreases self.models@.len() - i,
        {
            let m = chars_of(self.models[i].name.as_str());
            assert(ms[i as int] == self.models@[i as int]@);
            if chars_eq(m.as_slice(), n.as_slice()) {
                return Some(i);
            }
            i = i + 1;
        }
        None
    }

    /// The first entry named `name`.
    pub fn get(&self, name: &str) -> (r: Option<&ModelEntry>)
        ensures
            match r {
                Some(e) => lookup(self@, name@) == Some(e@),
                None => lookup(self@, name@) is None,
            },
    {
        match self.position(name) {
            Some(k) => {
                assert(self@.models[k as int] == self.models@[k as int]@);
                Some(&self.models[k])
            },
            None => None,
        }
    }

    /// The install path of the default model, if one is installed.
    pub fn default_model_path(&self) -> (r: Option<&String>)
        ensures
            match r {
                Some(p) => default_path(self@) == Some(p@),
                None => default_path(self@) is None,
            },
    {
        match &self.default {
            None => None,
            Some(name) => match self.get(name.as_str()) {
                None => None,
                Some(e) => match &e.path {
                    Some(p) => Some(p),
                    None => None,
                },
            },
        }
    }
}


/// A model name the catalog does not hold.
#[derive(Debug)]
pub struct CatalogError {
    pub name: String,
    /// Names of the models the catalog holds, in order.
    pub available: Vec<String>,
}

pub open spec fn model_names(s: Seq<EntryView>) -> Seq<Seq<char>> {
    s.map_values(|e: EntryView| e.name)
}

/// The text of a catalog refusal.
pub open spec fn catalog_message(name: Seq<char>, available: Seq<Seq<char>>) -> Seq<char> {
    "unknown model "@ + quoted(name) + "; available: "@ + join(available, ", "@)
}

impl CatalogError {
    pub fn message(&self) -> (r: String)
        ensures
            r@ == catalog_message(self.name@, string_views(self.available@)),
    {
        let mut m = chars_of("unknown model ");
        let q = quoted_chars(chars_of(self.name.as_str()).as_slice());
        push_all(&mut m, q.as_slice());
        push_all(&mut m, chars_of("; available: ").as_slice());
        let j = join_strings(self.available.as_slice(), ", ");
        push_all(&mut m, j.as_slice());
        string_of(m.as_slice())
    }
}

/// The catalog entry named `name`, or an error listing the known names.
pub fn catalog_entry(config: &ModelConfig, name: &str) -> (r: Result<ModelEntry, CatalogError>)
    ensures
        match r {
            Ok(e) => lookup(config@, name@) == Some(e@),
            Err(err) => lookup(config@, name@) is None && err.name@ == name@ && string_views(
                err.available@,
            ) == model_names(config@.models),
        },
{
    match config.get(name) {
        Some(e) => Ok(e.copy()),
        None => {
            let mut available: Vec<String> = Vec::new();
            let mut i: usize = 0;
            let ghost ms = config@.models;
            while i < config.models.len()
                invariant
                    i <= config.models@.len(),
                    ms == entry_views(config.models@),
                    string_views(available@) == model_names(ms).take(i as int),
                decreases config.models@.len() - i,
            {
                let n = config.models[i].name.clone();
                let ghost before = available@;
                assert(ms[i as int] == config.models@[i as int]@);
                available.push(n);
                assert(string_views(available@) =~= string_views(before).push(ms[i as int].name));
                i = i + 1;
                assert(model_names(ms).take(i as int) =~= model_names(ms).take(i - 1).push(
                    ms[i - 1].name,
                ));
            }
            assert(model_names(ms).take(ms.len() as int) =~= model_names(ms));
            Err(CatalogError { name: name.to_owned(), available })
        },
    }
}

/// The catalog after `name` was downloaded to `dest`: the first entry with
/// that name gets the path, or a new entry is appended; `name` becomes the
/// default.
pub open spec fn registered(
    c: CatalogView,
    name: Seq<char>,
    url: Seq<char>,
    sha256: Option<Seq<char>>,
    dest: Seq<char>,
) -> CatalogView {
    let k = first_named(c.models, name);
    let models = if k >= 0 {
        c.models.update(
            k,
            EntryView {
                name: c.models[k].name,
                url: c.models[k].url,
                sha256: c.models[k].sha256,
                path: Some(dest),
            },
        )
    } else {
        c.models.push(EntryView { name, url, sha256, path: Some(dest) })
    };
    CatalogView { default: Some(name), models }
}

impl ModelConfig {
    /// Records a finished download of `name` into `dest` and makes it the
    /// default model.
    pub fn register_download(
        &mut self,
        name: &str,
        url: &str,
        sha256: &Option<String>,
        dest: &str,
    )
        ensures
            final(self)@ == registered(old(self)@, name@, url@, opt_view(*sha256), dest@),
    {
        match self.position(name) {
            Some(k) => {
                let old_e = self.models[k].copy();
                let e = ModelEntry {
                    name: old_e.name,
                    url: old_e.url,
                    sha256: old_e.sha256,
                    path: Some(dest.to_owned()),
                };
                let ghost before = self.models@;
                self.models.set(k, e);
                assert(entry_views(self.models@) =~= entry_views(before).update(k as int, e@));
            },
            None => {
                let e = ModelEntry {
                    name: name.to_owned(),
                    url: url.to_owned(),
                    sha256: clone_opt(sha256),
                    path: Some(dest.to_owned()),
                };
                let ghost before = self.models@;
                self.models.push(e);
                assert(entry_views(self.models@) =~= entry_views(before).push(e@));
            },
        }
        self.default = Some(name.to_owned());
    }
}

/// The URL up to its query string.
pub open spec fn before_query(url: Seq<char>) -> Seq<char> {
    match split_once(url, '?') {
        Some((a, _)) => a,
        None => url,
    }
}

/// The URL names a gzip-compressed tarball.
pub open spec fn spec_is_tar_gz(url: Seq<char>) -> bool {
    ends_with(before_query(url), ".tar.gz"@) || ends_with(before_query(url), ".tgz"@)
}

fn before_query_chars(url: &[char]) -> (r: Vec<char>)
    ensures
        r@ == before_query(url@),
{
    match split_once_chars(url, '?') {
        Some((a, _)) => a,
        None => {
            let r = sub_vec(url, 0, url.len());
            assert(r@ =~= url@);
            r
        },
    }
}

pub fn is_tar_gz(url: &str) -> (r: bool)
    ensures
        r == spec_is_tar_gz(url@),
{
    let p = before_query_chars(chars_of(url).as_slice());
    ends_with_chars(p.as_slice(), chars_of(".tar.gz").as_slice()) || ends_with_chars(
        p.as_slice(),
        chars_of(".tgz").as_slice(),
    )
}

/// The file name of the URL's path with a `.tar.gz` or `.tgz` suffix
/// removed; `None` when the path ends with `/`.
pub open spec fn url_model_name(url: Seq<char>) -> Option<Seq<char>> {
    let file = split(before_query(url), '/').last();
    if file.len() == 0 {
        None
    } else if ends_with(file, ".tar.gz"@) {
        Some(file.take(file.len() - 7))
    } else if ends_with(file, ".tgz"@) {
        Some(file.take(file.len() - 4))
    } else {
        Some(file)
    }
}

/// A URL from which no model name can be derived.
#[derive(Debug, Clone, Copy, PartialEq, Eq)]
pub struct NoNameInUrl;

impl NoNameInUrl {
    pub fn message(&self) -> (r: String)
        ensures
            r@ == "could not derive a name from the URL; use --name to provide one"@,
    {
        string_of(
            chars_of("could not derive a name from the URL; use --name to provide one").as_slice(),
        )
    }
}

pub fn name_from_url(url: &str) -> (r: Result<String, NoNameInUrl>)
    ensures
        match r {
            Ok(n) => url_model_name(url@) == Some(n@),
            Err(_) => url_model_name(url@) is None,
        },
{
    let p = before_query_chars(chars_of(url).as_slice());
    let parts = split_chars(p.as_slice(), '/');
    proof {
        lemma_split_len(p@, '/');
    }
    let file = &parts[parts.len() - 1];
    assert(file@ == split(p@, '/').last());
    if file.len() == 0 {
        return Err(NoNameInUrl);
    }
    let tgz_long = chars_of(".tar.gz");
    let tgz_short = chars_of(".tgz");
    proof {
        reveal_strlit(".tar.gz");
        reveal_strlit(".tgz");
    }
    if ends_with_chars(file.as_slice(), tgz_long.as_slice()) {
        let n = sub_vec(file.as_slice(), 0, file.len() - 7);
        assert(n@ =~= file@.take(file@.len() - 7));
        Ok(string_of(n.as_slice()))
    } else if ends_with_chars(file.as_slice(), tgz_short.as_slice()) {
        let n = sub_vec(file.as_slice(), 0, file.len() - 4);
        assert(n@ =~= file@.take(file@.len() - 4));
        Ok(string_of(n.as_slice()))
    } else {
        Ok(string_of(file.as_slice()))
    }
}


/// The first entry named `name` is the one at `k` when `k` holds that name
/// and no earlier entry does.
proof fn lemma_first_named_at(s: Seq<EntryView>, name: Seq<char>, k: int)
    requires
        0 <= k < s.len(),
        s[k].name == name,
        forall|j: int| 0 <= j < k ==> s[j].name != name,
    ensures
        first_named(s, name) == k,
    decreases s.len(),
{
    if k > 0 {
        assert forall|j: int| 0 <= j < k - 1 implies s.drop_first()[j].name != name by {
            assert(s.drop_first()[j] == s[j + 1]);
        }
        lemma_first_named_at(s.drop_first(), name, k - 1);
    }
}

/// After a download of `name` into `dest` is recorded, `name` is the
/// default model and its path is `dest`: the daemon will use what was
/// just downloaded.
pub proof fn lemma_download_becomes_default(
    c: CatalogView,
    name: Seq<char>,
    url: Seq<char>,
    sha256: Option<Seq<char>>,
    dest: Seq<char>,
)
    ensures
        registered(c, name, url, sha256, dest).default == Some(name),
        default_path(registered(c, name, url, sha256, dest)) == Some(dest),
        lookup(registered(c, name, url, sha256, dest), name) matches Some(e) && e.path == Some(
            dest,
        ) && e.name == name,
{
    lemma_first_named(c.models, name);
    let k = first_named(c.models, name);
    let after = registered(c, name, url, sha256, dest).models;
    if k >= 0 {
        assert forall|j: int| 0 <= j < k implies after[j].name != name by {
            assert(after[j] == c.models[j]);
        }
        lemma_first_named_at(after, name, k);
    } else {
        let n = c.models.len() as int;
        assert forall|j: int| 0 <= j < n implies after[j].name != name by {
            assert(after[j] == c.models[j]);
        }
        lemma_first_named_at(after, name, n);
    }
}


fn copy_entries(models: &Vec<ModelEntry>) -> (r: Vec<ModelEntry>)
    ensures
        entry_views(r@) == entry_views(models@),
{
    let mut r: Vec<ModelEntry> = Vec::new();
    let mut i: usize = 0;
    while i < models.len()
        invariant
            i <= models@.len(),
            entry_views(r@) == entry_views(models@).take(i as int),
        decreases models@.len() - i,
    {
        let ghost before = r@;
        let e = models[i].copy();
        r.push(e);
        assert(entry_views(r@) =~= entry_views(before).push(models@[i as int]@));
        assert(entry_views(models@).take(i as int + 1) =~= entry_views(models@).take(i as int).push(
            models@[i as int]@,
        ));
        i = i + 1;
    }
    assert(entry_views(models@).take(models@.len() as int) =~= entry_views(models@));
    r
}

impl ModelConfig {
    /// The model catalog of a loaded configuration.
    pub fn load(config: &crate::config::schema::JabberwokConfig) -> (r: ModelConfig)
        ensures
            r@ == config.models@,
    {
        ModelConfig { default: clone_opt(&config.models.default), models: copy_entries(&config.models.models) }
    }

    /// Stores the catalog into a configuration, leaving the rest of it as
    /// it was.
    pub fn save(&self, config: &mut crate::config::schema::JabberwokConfig)
        ensures
            final(config).models@ == self@,
            final(config).devices@ == old(config).devices@,
            final(config).devices.wf() == old(config).devices.wf(),
            final(config).tutorial == old(config).tutorial,
            final(config).logging.level@ == old(config).logging.level@,
            string_views(final(config).logging.targets@) == string_views(old(config).logging.targets@),
    {
        config.models = ModelsConfig { default: clone_opt(&self.default), models: copy_entries(&self.models) };
    }
}

} // verus!
