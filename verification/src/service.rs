//! The macOS LaunchAgent: where its property list goes, what it contains,
//! the launchd names it is registered under, and which executable it runs.
use vstd::prelude::*;
use crate::config::paths::{join_all, lemma_join_all_list, lemma_join_all_push};
use crate::config::schema::opt_view;
use crate::state::{file_name_of, join_path, parent_of, path_file_name, path_parent};
use crate::text::{chars_eq, chars_of, decimal, decimal_chars, push_all, replace_all, replace_chars, string_of};

verus! {

/// The application's bundle identifier.
pub fn bundle_identifier() -> (r: &'static str)
    ensures
        r@ == "computer.handy.jabberwok"@,
{
    "computer.handy.jabberwok"
}

/// Where the LaunchAgent property list lives for a home directory:
/// `~/Library/LaunchAgents/com.handy.jabberwok.plist`.
pub fn launch_agent_path(home: &Option<String>) -> (r: Result<String, String>)
    ensures
        match r {
            Ok(p) => opt_view(*home) matches Some(h) && p@ == join_all(
                h,
                seq!["Library"@, "LaunchAgents"@, "com.handy.jabberwok.plist"@],
            ),
            Err(m) => home.is_none() && m@ == "HOME is not set"@,
        },
{
    match home {
        Some(h) => {
            let a = join_path(h.as_str(), "Library");
            let b = join_path(a.as_str(), "LaunchAgents");
            let r = join_path(b.as_str(), "com.handy.jabberwok.plist");
            proof {
                lemma_join_all_list(h@, "Library"@, "LaunchAgents"@, "com.handy.jabberwok.plist"@);
            }
            Ok(r)
        },
        None => Err("HOME is not set".to_string()),
    }
}

/// The launchd domain of the user with id `uid`.
pub fn gui_domain(uid: u32) -> (r: String)
    ensures
        r@ == "gui/"@ + decimal(uid as nat),
{
    let mut m = chars_of("gui/");
    push_all(&mut m, decimal_chars(uid as u64).as_slice());
    string_of(m.as_slice())
}

/// The launchd service target of the application for user `uid`.
pub fn service_target(uid: u32) -> (r: String)
    ensures
        r@ == "gui/"@ + decimal(uid as nat) + "/"@ + "computer.handy.jabberwok"@,
{
    let mut m = chars_of(gui_domain(uid).as_str());
    push_all(&mut m, chars_of("/").as_slice());
    push_all(&mut m, chars_of(bundle_identifier()).as_slice());
    string_of(m.as_slice())
}

/// The property list: the template with the executable and log directory
/// filled in.
pub fn render_launch_agent(template: &str, exe: &str, logs_dir: &str) -> (r: String)
    ensures
        r@ == replace_all(
            replace_all(template@, "__APP_EXECUTABLE__"@, exe@),
            "__LOGS_DIR__"@,
            logs_dir@,
        ),
{
    let exe_marker = chars_of("__APP_EXECUTABLE__");
    let logs_marker = chars_of("__LOGS_DIR__");
    proof {
        reveal_strlit("__APP_EXECUTABLE__");
        reveal_strlit("__LOGS_DIR__");
    }
    let first = replace_chars(
        chars_of(template).as_slice(),
        exe_marker.as_slice(),
        chars_of(exe).as_slice(),
    );
    let second = replace_chars(first.as_slice(), logs_marker.as_slice(), chars_of(logs_dir).as_slice());
    string_of(second.as_slice())
}

/// For an executable installed by Homebrew
/// (`PREFIX/Cellar/jabberwok/VERSION/bin/jabberwok`), the version-stable
/// path `PREFIX/opt/jabberwok/bin/jabberwok`.
pub open spec fn homebrew_opt_path(exe: Seq<char>) -> Option<Seq<char>> {
    match path_parent(exe) {
        None => None,
        Some(bin_dir) => match path_parent(bin_dir) {
            None => None,
            Some(version_dir) => match path_parent(version_dir) {
                None => None,
                Some(package_dir) => match path_parent(package_dir) {
                    None => None,
                    Some(cellar_dir) => if path_file_name(package_dir) == Some("jabberwok"@)
                        && path_file_name(cellar_dir) == Some("Cellar"@) {
                        match path_parent(cellar_dir) {
                            None => None,
                            Some(prefix) => Some(
                                join_all(
                                    prefix,
                                    seq!["opt"@, "jabberwok"@, "bin"@, "jabberwok"@],
                                ),
                            ),
                        }
                    } else {
                        None
                    },
                },
            },
        },
    }
}

fn named(p: &str, w: &str) -> (r: bool)
    ensures
        r == (path_file_name(p@) == Some(w@)),
{
    match file_name_of(p) {
        Some(n) => chars_eq(chars_of(n.as_str()).as_slice(), chars_of(w).as_slice()),
        None => false,
    }
}

/// The Homebrew `opt` path for `exe`, when `exe` is a Homebrew install;
/// the caller uses it only if it exists.
pub fn homebrew_opt_executable(exe: &str) -> (r: Option<String>)
    ensures
        opt_view(r) == homebrew_opt_path(exe@),
{
    let bin_dir = match parent_of(exe) {
        Some(d) => d,
        None => {
            return None;
        },
    };
    let version_dir = match parent_of(bin_dir.as_str()) {
        Some(d) => d,
        None => {
            return None;
        },
    };
    let package_dir = match parent_of(version_dir.as_str()) {
        Some(d) => d,
        None => {
            return None;
        },
    };
    let cellar_dir = match parent_of(package_dir.as_str()) {
        Some(d) => d,
        None => {
            return None;
        },
    };
    if !named(package_dir.as_str(), "jabberwok") || !named(cellar_dir.as_str(), "Cellar") {
        return None;
    }
    let prefix = match parent_of(cellar_dir.as_str()) {
        Some(d) => d,
        None => {
            return None;
        },
    };
    let a = join_path(prefix.as_str(), "opt");
    let b = join_path(a.as_str(), "jabberwok");
    let c = join_path(b.as_str(), "bin");
    let d = join_path(c.as_str(), "jabberwok");
    proof {
        lemma_join_all_list(prefix@, "opt"@, "jabberwok"@, "bin"@);
        lemma_join_all_push(prefix@, seq!["opt"@, "jabberwok"@, "bin"@], "jabberwok"@);
        assert(seq!["opt"@, "jabberwok"@, "bin"@].push("jabberwok"@) =~= seq![
            "opt"@,
            "jabberwok"@,
            "bin"@,
            "jabberwok"@,
        ]);
    }
    Some(d)
}

/// The executable the LaunchAgent starts: the Homebrew `opt` path when it
/// exists, else the running executable.
pub fn launch_agent_executable(exe: String, opt_candidate: Option<String>, candidate_exists: bool) -> (r: String)
    ensures
        r@ == match opt_view(opt_candidate) {
            Some(c) => if candidate_exists {
                c
            } else {
                exe@
            },
            None => exe@,
        },
{
    match opt_candidate {
        Some(c) => if candidate_exists {
            c
        } else {
            exe
        },
        None => exe,
    }
}

} // verus!
