//! The configuration a front end loads: the hosts it knows and the tasks it
//! offers.

use vstd::prelude::*;

verus! {

/// What a configuration file holds.
#[derive(Debug)]
pub struct ConfigData {
    /// Known hosts.
    pub hosts: Vec<String>,
    /// Tasks to offer.
    pub tasks: Vec<String>,
}

/// A loaded configuration and the path it came from.
#[derive(Debug)]
pub struct Config {
    /// The file it was read from.
    pub path: String,
    /// What the file holds.
    pub data: ConfigData,
}

/// The file read when no path is given.
pub open spec fn default_config_path() -> Seq<char> {
    "./despereaux.yaml"@
}

impl Config {
    /// The path to load from: the given one, or `./despereaux.yaml`.
    pub fn path_or_default(path: Option<String>) -> (r: String)
        ensures
            r@ == match path {
                Some(p) => p@,
                None => default_config_path(),
            },
    {
        match path {
            Some(p) => p,
            None => String::from_str("./despereaux.yaml"),
        }
    }

    /// A configuration read from `path`.
    pub fn new(path: String, data: ConfigData) -> (c: Config)
        ensures
            c.path == path,
            c.data == data,
    {
        Config { path, data }
    }
}

} // verus!
