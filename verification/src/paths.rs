//! Where the two stores are kept on disk.

use std::path::PathBuf;
use vstd::prelude::*;

verus! {

/// `std::path::PathBuf`, carried through as it is: nothing is known of what
/// a path holds.
#[verifier::external_type_specification]
#[verifier::external_body]
pub struct ExPathBuf(PathBuf);

/// The path that `Path::join` gives for `name` below `base`.
pub uninterp spec fn path_join(base: PathBuf, name: Seq<char>) -> PathBuf;

/// The directory, below the platform's configuration directory, that holds
/// the stores.
pub const APP_DIR: &'static str = "gamm";

/// The file of the profile store.
pub const CONFIG_FILE: &'static str = "config.json";

/// The directory, below the home directory, that holds the global hooks.
pub const HOOKS_DIR: &'static str = ".githooks";

/// The hook script inside that directory.
pub const HOOK_FILE: &'static str = "pre-commit";

/// The file of the repository store.
pub const REPOS_FILE: &'static str = "repos.json";

/// `dirs::config_dir`: the user's configuration directory as the platform
/// and the environment give it, or nothing where they give none. Nothing is
/// claimed of the result.
#[verifier::external_body]
pub(crate) fn platform_config_dir() -> (r: Option<PathBuf>) {
    dirs::config_dir()
}

/// `dirs::home_dir`: the user's home directory as the platform and the
/// environment give it, or nothing where they give none. Nothing is claimed
/// of the result.
#[verifier::external_body]
pub(crate) fn platform_home_dir() -> (r: Option<PathBuf>) {
    dirs::home_dir()
}

/// `Path::join`: the path `name` below `base`. The result depends on the
/// two paths alone; it is known by the name `path_join`, and nothing more is
/// claimed of it.
#[verifier::external_body]
pub(crate) fn joined(base: &PathBuf, name: &str) -> (r: PathBuf)
    ensures
        r == path_join(*base, name@),
{
    base.join(name)
}

/// Whether `p` is the directory of the stores below some directory.
pub open spec fn is_store_dir(p: PathBuf) -> bool {
    exists|base: PathBuf| p == path_join(base, APP_DIR@)
}

/// Whether `p` is the file named `file` inside a directory of the stores.
pub open spec fn is_store_file(p: PathBuf, file: Seq<char>) -> bool {
    exists|dir: PathBuf| is_store_dir(dir) && p == path_join(dir, file)
}

/// Whether `p` is the directory of the global hooks below some directory.
pub open spec fn is_hooks_dir(p: PathBuf) -> bool {
    exists|home: PathBuf| p == path_join(home, HOOKS_DIR@)
}

/// Whether `p` is the pre-commit hook script inside a directory of the
/// global hooks.
pub open spec fn is_hook_path(p: PathBuf) -> bool {
    exists|dir: PathBuf| is_hooks_dir(dir) && p == path_join(dir, HOOK_FILE@)
}

/// The path `name` below `base`, where there is a base.
pub fn below(base: Option<PathBuf>, name: &str) -> (r: Option<PathBuf>)
    ensures
        r == match base {
            Some(b) => Some(path_join(b, name@)),
            None => None,
        },
{
    match base {
        Some(b) => Some(joined(&b, name)),
        None => None,
    }
}

/// The directory of the stores: the directory named by `APP_DIR` below the
/// platform's configuration directory. There is none where the platform
/// names no configuration directory.
pub fn store_dir() -> (r: Option<PathBuf>)
    ensures
        r matches Some(p) ==> is_store_dir(p),
{
    below(platform_config_dir(), APP_DIR)
}

/// The directory of the global hooks: the directory named by `HOOKS_DIR`
/// below the home directory. There is none where the platform names no home
/// directory.
pub fn hooks_dir() -> (r: Option<PathBuf>)
    ensures
        r matches Some(p) ==> is_hooks_dir(p),
{
    below(platform_home_dir(), HOOKS_DIR)
}

/// The pre-commit hook script: the file named by `HOOK_FILE` inside the
/// directory of the global hooks.
pub fn hook_path() -> (r: Option<PathBuf>)
    ensures
        r matches Some(p) ==> is_hook_path(p),
{
    below(hooks_dir(), HOOK_FILE)
}

} // verus!
