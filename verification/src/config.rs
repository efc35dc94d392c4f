//! The user's configuration: where tracks go and in which audio format.
use vstd::prelude::*;

use crate::paths::{join_path, joined_path};
use crate::text::{chars_of, string_from_range};

verus! {

/// The settings read from `config.toml`.
pub struct AppConfig {
    pub download_path: String,
    pub format: String,
}

/// The settings of the API-based client.
pub struct Config {
    pub download_path: String,
    pub format: String,
}

/// The file written on first run when no configuration exists.
pub const DEFAULT_CONFIG: &'static str = "download_path = \"~/Music/yit\"\nformat = \"opus\"\n";

/// Whether a path starts with `~/`, the user's home directory.
pub open spec fn under_home(path: Seq<char>) -> bool {
    path.len() >= 2 && path[0] == '~' && path[1] == '/'
}

/// A download path with a leading `~/` replaced by the home directory.
pub open spec fn expanded_path(path: Seq<char>, home: Option<String>) -> Seq<char> {
    if under_home(path) {
        joined_path(home.unwrap()@, path.skip(2))
    } else {
        path
    }
}

impl AppConfig {
    /// The download path, with a leading `~/` resolved against `home`, the
    /// user's home directory.
    pub fn download_path_expanded(&self, home: &Option<String>) -> (res: String)
        requires
            under_home(self.download_path@) ==> home is Some,
        ensures
            res@ == expanded_path(self.download_path@, *home),
    {
        let v = chars_of(self.download_path.as_str());
        if v.len() >= 2 && v[0] == '~' && v[1] == '/' {
            let rest = string_from_range(&v, 2, v.len());
            assert(v@.subrange(2, v@.len() as int) =~= v@.skip(2));
            match home {
                Some(h) => join_path(h.as_str(), rest.as_str()),
                None => rest,
            }
        } else {
            let mut s = String::new();
            s.append(self.download_path.as_str());
            s
        }
    }
}

/// The path of `config.toml` inside the user's configuration directory.
pub open spec fn config_file_of(config_dir: Seq<char>) -> Seq<char> {
    joined_path(joined_path(config_dir, "yit"@), "config.toml"@)
}

/// The path of `yit/config.toml` inside the user's configuration directory.
pub fn config_path(config_dir: &str) -> (res: String)
    ensures
        res@ == config_file_of(config_dir@),
{
    let d = join_path(config_dir, "yit");
    join_path(d.as_str(), "config.toml")
}

/// Where the API-based client puts tracks by default: `yit` inside the
/// user's audio directory, or inside `Music` in the home directory when
/// there is no audio directory.
pub open spec fn default_download_dir(audio_dir: Option<String>, home_dir: Option<String>) -> Seq<char> {
    match audio_dir {
        Some(a) => joined_path(a@, "yit"@),
        None => joined_path(joined_path(home_dir.unwrap()@, "Music"@), "yit"@),
    }
}

impl Config {
    /// The default settings, given the user's audio and home directories:
    /// `opus` files under [`default_download_dir`].
    pub fn default_for(audio_dir: &Option<String>, home_dir: &Option<String>) -> (res: Config)
        requires
            audio_dir is Some || home_dir is Some,
        ensures
            res.download_path@ == default_download_dir(*audio_dir, *home_dir),
            res.format@ == "opus"@,
    {
        let base = match audio_dir {
            Some(a) => {
                let mut s = String::new();
                s.append(a.as_str());
                s
            },
            None => match home_dir {
                Some(h) => join_path(h.as_str(), "Music"),
                None => String::new(),
            },
        };
        Config { download_path: join_path(base.as_str(), "yit"), format: "opus".to_owned() }
    }
}

} // verus!
