//! User settings and their defaults.

use vstd::prelude::*;
use vstd::string::*;

use crate::paths;
use crate::places;
use crate::text;

verus! {

/// User settings.
#[derive(Debug)]
pub struct Settings {
    /// Default download directory
    pub download_dir: String,
    /// Max parallel connections per download
    pub max_connections: u8,
    /// Speed limit in bytes/sec (0 = unlimited)
    pub speed_limit: u64,
    /// Whether old history is pruned when the daemon starts
    pub prune_enabled: bool,
    /// How many days history is kept
    pub prune_days: u32,
    /// The statuses whose history is pruned
    pub prune_statuses: Vec<String>,
}

impl Settings {
    /// The settings of a user who has not chosen any, with `downloads` as the directory for
    /// downloads.
    pub fn with_download_dir(downloads: Option<String>) -> (r: Settings)
        ensures
            r.download_dir@ == places::or_here(text::text_opt(downloads)),
            r.max_connections == 4,
            r.speed_limit == 0,
            !r.prune_enabled,
            r.prune_days == 30,
            r.prune_statuses@.len() == 0,
    {
        Settings {
            download_dir: places::dir_or_here(downloads),
            max_connections: 4,
            speed_limit: 0,
            prune_enabled: false,
            prune_days: 30,
            prune_statuses: Vec::new(),
        }
    }
}

/// The configuration file of a user whose home directory is `home`.
pub open spec fn config_file(home: Option<Seq<char>>) -> Seq<char> {
    paths::joined_path(places::or_here(home), ".config/shard/config.toml"@)
}

/// The path to the configuration file of a user whose home directory is `home`.
pub fn config_path(home: Option<String>) -> (r: String)
    ensures
        r@ == config_file(text::text_opt(home)),
{
    paths::join_path(places::dir_or_here(home).as_str(), ".config/shard/config.toml")
}

/// The configuration file lies in the home directory; without one, in the current directory.
pub proof fn law_configuration_lies_at_home(home: Seq<char>)
    requires
        home.len() > 0,
        home.last() != '/',
    ensures
        config_file(Some(home)) == home + "/.config/shard/config.toml"@,
        config_file(None) == "./.config/shard/config.toml"@,
{
    reveal_strlit(".");
    reveal_strlit(".config/shard/config.toml");
    reveal_strlit("/.config/shard/config.toml");
    reveal_strlit("./.config/shard/config.toml");
    assert(".config/shard/config.toml"@[0] == '.');
    assert("."@.last() == '.');
    assert(config_file(Some(home)) =~= home + "/.config/shard/config.toml"@);
    assert(config_file(None) =~= "./.config/shard/config.toml"@);
}

} // verus!
