//! Where the application keeps its files on each platform, and how an app
//! bundle is recognized.
use vstd::prelude::*;
use crate::config::schema::opt_view;
use crate::logs::extension;
use crate::state::{file_name_of, join_path, parent_of, path_file_name, path_join, path_parent};
use crate::text::{chars_eq, chars_of, starts_with, starts_with_chars};
use crate::xtask::package::Platform;

verus! {

/// AppleDouble files (`._name`) among the packaged defaults are not copied.
pub fn is_ignored_packaged_file(name: &str) -> (r: bool)
    ensures
        r == starts_with(name@, "._"@),
{
    starts_with_chars(chars_of(name).as_slice(), chars_of("._").as_slice())
}

/// The `Resources` directory of the app bundle the executable at `exe`
/// runs from: `X.app/Contents/MacOS/exe` gives `X.app/Contents/Resources`.
pub open spec fn bundle_resources(exe: Seq<char>) -> Option<Seq<char>> {
    match path_parent(exe) {
        None => None,
        Some(macos_dir) => match path_parent(macos_dir) {
            None => None,
            Some(contents_dir) => match path_parent(contents_dir) {
                None => None,
                Some(app_dir) => if path_file_name(macos_dir) == Some("MacOS"@)
                    && path_file_name(contents_dir) == Some("Contents"@) && match path_file_name(
                    app_dir,
                ) {
                    Some(n) => extension(n) == Some("app"@),
                    None => false,
                } {
                    Some(path_join(contents_dir, "Resources"@))
                } else {
                    None
                },
            },
        },
    }
}

fn name_is(p: &str, w: &str) -> (r: bool)
    ensures
        r == (path_file_name(p@) == Some(w@)),
{
    match file_name_of(p) {
        Some(n) => chars_eq(chars_of(n.as_str()).as_slice(), chars_of(w).as_slice()),
        None => false,
    }
}

fn is_app_dir(p: &str) -> (r: bool)
    ensures
        r == match path_file_name(p@) {
            Some(n) => extension(n) == Some("app"@),
            None => false,
        },
{
    match file_name_of(p) {
        Some(n) => crate::logs::extension_is(n.as_str(), "app"),
        None => false,
    }
}

pub fn bundled_resources_dir(exe: &str) -> (r: Option<String>)
    ensures
        opt_view(r) == bundle_resources(exe@),
{
    let macos_dir = match parent_of(exe) {
        Some(d) => d,
        None => {
            return None;
        },
    };
    let contents_dir = match parent_of(macos_dir.as_str()) {
        Some(d) => d,
        None => {
            return None;
        },
    };
    let app_dir = match parent_of(contents_dir.as_str()) {
        Some(d) => d,
        None => {
            return None;
        },
    };
    if !name_is(macos_dir.as_str(), "MacOS") {
        return None;
    }
    if !name_is(contents_dir.as_str(), "Contents") {
        return None;
    }
    if !is_app_dir(app_dir.as_str()) {
        return None;
    }
    Some(join_path(contents_dir.as_str(), "Resources"))
}

/// Whether the executable at `exe` runs from an app bundle.
pub fn is_bundled_app(exe: &str) -> (r: bool)
    ensures
        r == bundle_resources(exe@) is Some,
{
    bundled_resources_dir(exe).is_some()
}

/// Joins several components onto a base path, one at a time.
pub open spec fn join_all(base: Seq<char>, parts: Seq<Seq<char>>) -> Seq<char>
    decreases parts.len(),
{
    if parts.len() == 0 {
        base
    } else {
        path_join(join_all(base, parts.drop_last()), parts.last())
    }
}

pub proof fn lemma_join_all_push(base: Seq<char>, parts: Seq<Seq<char>>, p: Seq<char>)
    ensures
        join_all(base, parts.push(p)) == path_join(join_all(base, parts), p),
{
    assert(parts.push(p).drop_last() =~= parts);
}

pub proof fn lemma_join_all_list(base: Seq<char>, a: Seq<char>, b: Seq<char>, c: Seq<char>)
    ensures
        join_all(base, seq![a]) == path_join(base, a),
        join_all(base, seq![a, b]) == path_join(path_join(base, a), b),
        join_all(base, seq![a, b, c]) == path_join(path_join(path_join(base, a), b), c),
{
    lemma_join_all_push(base, Seq::empty(), a);
    assert(Seq::<Seq<char>>::empty().push(a) =~= seq![a]);
    lemma_join_all_push(base, seq![a], b);
    assert(seq![a].push(b) =~= seq![a, b]);
    lemma_join_all_push(base, seq![a, b], c);
    assert(seq![a, b].push(c) =~= seq![a, b, c]);
}

fn join2(base: &str, a: &str, b: &str) -> (r: String)
    ensures
        r@ == join_all(base@, seq![a@, b@]),
{
    proof {
        lemma_join_all_list(base@, a@, b@, b@);
    }
    let x = join_path(base, a);
    join_path(x.as_str(), b)
}

fn join3(base: &str, a: &str, b: &str, c: &str) -> (r: String)
    ensures
        r@ == join_all(base@, seq![a@, b@, c@]),
{
    proof {
        lemma_join_all_list(base@, a@, b@, c@);
    }
    let x = join2(base, a, b);
    join_path(x.as_str(), c)
}

/// The environment a platform's locations are derived from.
#[derive(Debug, Clone)]
pub struct LocationEnv {
    pub home: Option<String>,
    pub appdata: Option<String>,
    pub xdg_config_home: Option<String>,
    pub xdg_state_home: Option<String>,
}

/// The application support directory on macOS.
pub fn macos_app_support_dir(home: &Option<String>) -> (r: Result<String, String>)
    ensures
        match r {
            Ok(d) => opt_view(*home) matches Some(h) && d@ == join_all(
                h,
                seq!["Library"@, "Application Support"@, "jabberwok"@],
            ),
            Err(m) => home.is_none() && m@ == "HOME is not set"@,
        },
{
    match home {
        Some(h) => Ok(join3(h.as_str(), "Library", "Application Support", "jabberwok")),
        None => Err("HOME is not set".to_string()),
    }
}

/// The configuration file of each platform.
pub open spec fn config_file_location(p: Platform, env: LocationEnv) -> Result<Seq<char>, Seq<char>> {
    match p {
        Platform::Macos => match opt_view(env.home) {
            Some(h) => Ok(
                join_all(
                    h,
                    seq![
                        "Library"@,
                        "Application Support"@,
                        "jabberwok"@,
                        "config"@,
                        "jabberwok.toml"@,
                    ],
                ),
            ),
            None => Err("HOME is not set"@),
        },
        Platform::Windows => match opt_view(env.appdata) {
            Some(a) => Ok(join_all(a, seq!["jabberwok"@, "config"@, "jabberwok.toml"@])),
            None => Err("APPDATA is not set"@),
        },
        Platform::Linux => match opt_view(env.xdg_config_home) {
            Some(x) => Ok(join_all(x, seq!["jabberwok"@, "config"@, "jabberwok.toml"@])),
            None => match opt_view(env.home) {
                Some(h) => Ok(
                    join_all(
                        path_join(h, ".config"@),
                        seq!["jabberwok"@, "config"@, "jabberwok.toml"@],
                    ),
                ),
                None => Err("HOME is not set"@),
            },
        },
    }
}

pub fn config_file(platform: Platform, env: &LocationEnv) -> (r: Result<String, String>)
    ensures
        match r {
            Ok(f) => config_file_location(platform, *env) == Ok::<Seq<char>, Seq<char>>(f@),
            Err(m) => config_file_location(platform, *env) == Err::<Seq<char>, Seq<char>>(m@),
        },
{
    match platform {
        Platform::Macos => match &env.home {
            Some(h) => {
                let d = join3(h.as_str(), "Library", "Application Support", "jabberwok");
                let r = join2(d.as_str(), "config", "jabberwok.toml");
                proof {
                    let s5 = seq![
                        "Library"@,
                        "Application Support"@,
                        "jabberwok"@,
                        "config"@,
                        "jabberwok.toml"@,
                    ];
                    let s4 = seq!["Library"@, "Application Support"@, "jabberwok"@, "config"@];
                    let s3 = seq!["Library"@, "Application Support"@, "jabberwok"@];
                    lemma_join_all_push(h@, s4, "jabberwok.toml"@);
                    assert(s4.push("jabberwok.toml"@) =~= s5);
                    lemma_join_all_push(h@, s3, "config"@);
                    assert(s3.push("config"@) =~= s4);
                    lemma_join_all_list(d@, "config"@, "jabberwok.toml"@, "jabberwok.toml"@);
                }
                Ok(r)
            },
            None => Err("HOME is not set".to_string()),
        },
        Platform::Windows => match &env.appdata {
            Some(a) => Ok(join3(a.as_str(), "jabberwok", "config", "jabberwok.toml")),
            None => Err("APPDATA is not set".to_string()),
        },
        Platform::Linux => match &env.xdg_config_home {
            Some(x) => Ok(join3(x.as_str(), "jabberwok", "config", "jabberwok.toml")),
            None => match &env.home {
                Some(h) => {
                    let root = join_path(h.as_str(), ".config");
                    Ok(join3(root.as_str(), "jabberwok", "config", "jabberwok.toml"))
                },
                None => Err("HOME is not set".to_string()),
            },
        },
    }
}

/// The log directory of each platform.
pub open spec fn logs_location(p: Platform, env: LocationEnv) -> Result<Seq<char>, Seq<char>> {
    match p {
        Platform::Macos => match opt_view(env.home) {
            Some(h) => Ok(join_all(h, seq!["Library"@, "Logs"@, "jabberwok"@])),
            None => Err("HOME is not set"@),
        },
        Platform::Windows => match opt_view(env.appdata) {
            Some(a) => Ok(join_all(a, seq!["jabberwok"@, "logs"@])),
            None => Err("APPDATA is not set"@),
        },
        Platform::Linux => {
            let base = match opt_view(env.xdg_state_home) {
                Some(x) => x,
                None => join_all(
                    match opt_view(env.home) {
                        Some(h) => h,
                        None => Seq::empty(),
                    },
                    seq![".local"@, "state"@],
                ),
            };
            Ok(join_all(base, seq!["jabberwok"@, "logs"@]))
        },
    }
}

pub fn logs_dir(platform: Platform, env: &LocationEnv) -> (r: Result<String, String>)
    ensures
        match r {
            Ok(f) => logs_location(platform, *env) == Ok::<Seq<char>, Seq<char>>(f@),
            Err(m) => logs_location(platform, *env) == Err::<Seq<char>, Seq<char>>(m@),
        },
{
    match platform {
        Platform::Macos => match &env.home {
            Some(h) => Ok(join3(h.as_str(), "Library", "Logs", "jabberwok")),
            None => Err("HOME is not set".to_string()),
        },
        Platform::Windows => match &env.appdata {
            Some(a) => Ok(join2(a.as_str(), "jabberwok", "logs")),
            None => Err("APPDATA is not set".to_string()),
        },
        Platform::Linux => {
            let base = match &env.xdg_state_home {
                Some(x) => x.clone(),
                None => {
                    let home = match &env.home {
                        Some(h) => h.clone(),
                        None => String::new(),
                    };
                    proof {
                        reveal_strlit("");
                    }
                    join2(home.as_str(), ".local", "state")
                },
            };
            Ok(join2(base.as_str(), "jabberwok", "logs"))
        },
    }
}

} // verus!
