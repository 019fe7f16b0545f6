//! User settings.

use vstd::prelude::*;

verus! {

/// User settings kept between runs.
#[derive(Clone, Debug)]
pub struct Config {
    pub current_package: Option<String>,
    pub auto_save_replay: bool,
    pub verify_package_hashes: bool,
}

impl Config {
    /// No package chosen, replays saved by hand, package hashes verified.
    pub fn default_config() -> (c: Config)
        ensures
            c.current_package is None,
            !c.auto_save_replay,
            c.verify_package_hashes,
    {
        Config { current_package: None, auto_save_replay: false, verify_package_hashes: true }
    }

    /// The settings to use after loading: the loaded settings when they could
    /// be read, else the defaults. A remembered package that no longer exists
    /// is forgotten.
    pub fn from_loaded(loaded: Option<Config>, current_package_exists: bool) -> (c: Config)
        ensures
            loaded is None ==> c.current_package is None && !c.auto_save_replay
                && c.verify_package_hashes,
            loaded matches Some(l) ==> c.auto_save_replay == l.auto_save_replay
                && c.verify_package_hashes == l.verify_package_hashes && (if current_package_exists {
                c.current_package == l.current_package
            } else {
                c.current_package is None
            }),
    {
        match loaded {
            Some(mut config) => {
                if config.current_package.is_some() && !current_package_exists {
                    config.current_package = None;
                }
                config
            },
            None => Config::default_config(),
        }
    }
}

} // verus!
