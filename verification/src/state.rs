//! Where local state lives, relative to the configuration file, and what a
//! reset removes.
use vstd::prelude::*;
use crate::config::schema::opt_view;
use crate::text::string_views;

verus! {

/// How far the application is from being able to run its daemon.
#[derive(Clone, Copy, Debug, PartialEq, Eq, Structural)]
pub enum StartupState {
    Ready,
    NeedsSetup,
    NeedsRepair,
}

/// What `Path::parent` gives for a path.
pub uninterp spec fn path_parent(p: Seq<char>) -> Option<Seq<char>>;

/// What `Path::join` gives for a base path and a further component.
pub uninterp spec fn path_join(base: Seq<char>, tail: Seq<char>) -> Seq<char>;

/// The parent of a path, as a string.
/// Trusted: `std::path::Path::parent`, converted back to a string. The
/// parent of a path given as UTF-8 text is a prefix of it, so the
/// conversion loses nothing; the result is named, not described.
#[verifier::external_body]
pub(crate) fn parent_of(p: &str) -> (r: Option<String>)
    ensures
        opt_view(r) == path_parent(p@),
{
    std::path::Path::new(p).parent().map(|q| q.to_string_lossy().into_owned())
}

/// A path with one more component.
/// Trusted: `std::path::Path::join`, converted back to a string; the
/// result is named, not described.
#[verifier::external_body]
pub(crate) fn join_path(base: &str, tail: &str) -> (r: String)
    ensures
        r@ == path_join(base@, tail@),
{
    std::path::Path::new(base).join(tail).to_string_lossy().into_owned()
}

/// What `Path::file_name` gives for a path.
pub uninterp spec fn path_file_name(p: Seq<char>) -> Option<Seq<char>>;

/// The last component of a path, as a string.
/// Trusted: `std::path::Path::file_name`, converted back to a string; the
/// result is named, not described.
#[verifier::external_body]
pub(crate) fn file_name_of(p: &str) -> (r: Option<String>)
    ensures
        opt_view(r) == path_file_name(p@),
{
    std::path::Path::new(p).file_name().map(|q| q.to_string_lossy().into_owned())
}

/// The directory holding the configuration file: its parent, or `.`.
pub open spec fn config_dir_of(config_path: Seq<char>) -> Seq<char> {
    match path_parent(config_path) {
        Some(d) => d,
        None => "."@,
    }
}

/// The application support directory: the parent of the configuration
/// directory, or that directory itself.
pub open spec fn app_support_dir_of(config_path: Seq<char>) -> Seq<char> {
    match path_parent(config_dir_of(config_path)) {
        Some(d) => d,
        None => config_dir_of(config_path),
    }
}

/// The model directory: `models` under the application support directory.
pub open spec fn models_dir_of(config_path: Seq<char>) -> Seq<char> {
    path_join(app_support_dir_of(config_path), "models"@)
}

fn config_dir_for(config_path: &str) -> (r: String)
    ensures
        r@ == config_dir_of(config_path@),
{
    match parent_of(config_path) {
        Some(d) => d,
        None => ".".to_string(),
    }
}

fn app_support_dir_for(config_path: &str) -> (r: String)
    ensures
        r@ == app_support_dir_of(config_path@),
{
    let dir = config_dir_for(config_path);
    match parent_of(dir.as_str()) {
        Some(d) => d,
        None => dir,
    }
}

/// The directory where models are installed for a configuration file.
pub fn models_dir_for_config(config_path: &str) -> (r: String)
    ensures
        r@ == models_dir_of(config_path@),
{
    let base = app_support_dir_for(config_path);
    join_path(base.as_str(), "models")
}

/// The local files and directories of the application.
#[derive(Debug, Clone)]
pub struct LocalStatePaths {
    pub config_file: String,
    pub config_dir: String,
    pub app_support_dir: String,
    pub models_dir: String,
    pub logs_dir: String,
}

impl LocalStatePaths {
    /// The paths that belong to a configuration file; the log directory is
    /// fixed by the platform and handed in.
    pub fn from_config_path(config_path: &str, logs_dir: String) -> (r: LocalStatePaths)
        ensures
            r.config_file@ == config_path@,
            r.config_dir@ == config_dir_of(config_path@),
            r.app_support_dir@ == app_support_dir_of(config_path@),
            r.models_dir@ == models_dir_of(config_path@),
            r.logs_dir@ == logs_dir@,
    {
        let config_dir = config_dir_for(config_path);
        let app_support_dir = app_support_dir_for(config_path);
        let models_dir = join_path(app_support_dir.as_str(), "models");
        LocalStatePaths {
            config_file: config_path.to_owned(),
            config_dir,
            app_support_dir,
            models_dir,
            logs_dir,
        }
    }

    /// What a reset removes: the configuration directory, the models and
    /// the logs.
    pub fn resettable_paths(&self) -> (r: Vec<String>)
        ensures
            string_views(r@) == seq![self.config_dir@, self.models_dir@, self.logs_dir@],
    {
        let mut r: Vec<String> = Vec::new();
        r.push(self.config_dir.clone());
        r.push(self.models_dir.clone());
        r.push(self.logs_dir.clone());
        assert(string_views(r@) =~= seq![self.config_dir@, self.models_dir@, self.logs_dir@]);
        r
    }
}

} // verus!
