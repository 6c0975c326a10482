//! What a run is told: the credentials and names to keep, where its two
//! files lie, and whether there is anything to do at all.

use vstd::prelude::*;

use crate::text::str_eq;

verus! {

/// The wanted state: the credentials, the domain, the names under it that
/// are to point at this machine, and whether to update even if the address
/// has not changed.
#[derive(Clone, Debug, PartialEq, Eq)]
pub struct DDNSConfig {
    pub secret_id: String,
    pub secret_key: String,
    pub domain: String,
    pub sub_domain: Vec<String>,
    pub force_update: bool,
}

impl DDNSConfig {
    /// The configuration to keep once a run has gone through: the same, with
    /// the forced update spent.
    pub fn settled(self) -> (kept: DDNSConfig)
        ensures
            kept.secret_id == self.secret_id,
            kept.secret_key == self.secret_key,
            kept.domain == self.domain,
            kept.sub_domain == self.sub_domain,
            !kept.force_update,
    {
        DDNSConfig {
            secret_id: self.secret_id,
            secret_key: self.secret_key,
            domain: self.domain,
            sub_domain: self.sub_domain,
            force_update: false,
        }
    }
}

/// Where the configuration and the cache lie, as far as the caller said.
#[derive(Clone, Debug, PartialEq, Eq)]
pub struct Args {
    pub config_path: Option<String>,
    pub cache_path: Option<String>,
}

/// The directory of this tool below the user's configuration directory.
pub const APP_DIRECTORY: &'static str = "ddns";

/// The name of the configuration file in the tool's directory.
pub const CONFIG_FILE: &'static str = "ddns_config.json";

/// The name of the cache file in the tool's directory.
pub const CACHE_FILE: &'static str = "ddns_cache.txt";

/// Whether a text ends with another.
pub open spec fn ends_with(text: Seq<char>, end: Seq<char>) -> bool {
    end.len() <= text.len() && text.subrange(text.len() - end.len(), text.len() as int) == end
}

/// Whether a text is one plain component of a path on every platform: it is
/// not empty, holds no separator and no colon, and is neither `.` nor `..`.
pub open spec fn is_plain_component(name: Seq<char>) -> bool {
    &&& name.len() > 0
    &&& name != seq!['.']
    &&& name != seq!['.', '.']
    &&& forall|i: int|
        0 <= i < name.len() ==> #[trigger] name[i] != '/' && name[i] != '\\' && name[i] != ':'
}

/// Calls `std::path::Path::join` to extend the directory by one component
/// and hands the result back as text. Trusted: the result ends with the
/// component. How the two are joined depends on the platform and is left
/// open; a component that could replace the directory, or that a platform
/// could rewrite, is left out.
#[verifier::external_body]
fn join_path(directory: &str, component: &str) -> (path: String)
    requires
        is_plain_component(component@),
    ensures
        ends_with(path@, component@),
{
    std::path::Path::new(directory).join(component).to_string_lossy().to_string()
}

/// The three names are plain components.
proof fn lemma_names_are_plain()
    ensures
        is_plain_component(APP_DIRECTORY@),
        is_plain_component(CONFIG_FILE@),
        is_plain_component(CACHE_FILE@),
{
    reveal_strlit("ddns");
    reveal_strlit("ddns_config.json");
    reveal_strlit("ddns_cache.txt");
    assert(APP_DIRECTORY@.len() == 4);
    assert(CONFIG_FILE@.len() == 16);
    assert(CACHE_FILE@.len() == 14);
}

/// A path as given, or else the default for it, where there is one.
pub open spec fn path_or(given: Option<String>, default: Option<String>) -> Option<String> {
    match given {
        Some(path) => Some(path),
        None => default,
    }
}

/// Fills in the paths that the caller left out, each from its default.
pub fn with_defaults(args: Args, config_default: Option<String>, cache_default: Option<String>) -> (filled:
    Args)
    ensures
        filled.config_path == path_or(args.config_path, config_default),
        filled.cache_path == path_or(args.cache_path, cache_default),
{
    let config_path = match args.config_path {
        Some(path) => Some(path),
        None => config_default,
    };
    let cache_path = match args.cache_path {
        Some(path) => Some(path),
        None => cache_default,
    };
    Args { config_path, cache_path }
}

/// Settles the two paths: a path that the caller gave stands; one that was
/// left out becomes the file of that purpose in the tool's directory below
/// the user's configuration directory, if the platform has such a
/// directory, and stays out otherwise.
pub fn handle_path(args: Args, config_dir: Option<String>) -> (settled: Args)
    ensures
        args.config_path is Some ==> settled.config_path == args.config_path,
        args.cache_path is Some ==> settled.cache_path == args.cache_path,
        args.config_path is None && config_dir is None ==> settled.config_path is None,
        args.cache_path is None && config_dir is None ==> settled.cache_path is None,
        args.config_path is None && config_dir is Some ==> (settled.config_path matches Some(path)
            && ends_with(path@, CONFIG_FILE@)),
        args.cache_path is None && config_dir is Some ==> (settled.cache_path matches Some(path)
            && ends_with(path@, CACHE_FILE@)),
{
    proof {
        lemma_names_are_plain();
    }
    let (config_default, cache_default) = match &config_dir {
        Some(directory) => {
            let home = join_path(directory.as_str(), APP_DIRECTORY);
            (
                Some(join_path(home.as_str(), CONFIG_FILE)),
                Some(join_path(home.as_str(), CACHE_FILE)),
            )
        },
        None => (None, None),
    };
    with_defaults(args, config_default, cache_default)
}

/// Why a run ends before it has begun.
#[derive(Clone, Copy, Debug, PartialEq, Eq, Structural)]
pub enum Skip {
    /// The address is the one that the last run applied, and no update was
    /// forced.
    Unchanged,
}

impl Skip {
    /// The notice for the operator.
    pub fn message(&self) -> (text: String)
        ensures
            text@ == "SKIP: Cache IP not changed, skip update"@,
    {
        "SKIP: Cache IP not changed, skip update".to_owned()
    }
}

/// Decides whether a run has anything to do: it has if an update is forced
/// or the current address differs from the cached one. The run then goes on
/// with the current address; otherwise it is skipped, which is no failure.
pub fn check_cache(force_update: bool, cache: &str, ip: String) -> (decision: Result<String, Skip>)
    ensures
        (force_update || ip@ != cache@) ==> decision == Ok::<String, Skip>(ip),
        !(force_update || ip@ != cache@) ==> decision == Err::<String, Skip>(Skip::Unchanged),
{
    if force_update || !str_eq(ip.as_str(), cache) {
        Ok(ip)
    } else {
        Err(Skip::Unchanged)
    }
}

} // verus!
