use vstd::prelude::*;

verus! {

/// Command-line settings: the configuration file to read.
#[derive(Clone, Debug)]
pub struct Cli {
    pub config: String,
}

/// The configuration file read when none is named.
pub fn default_config_file() -> (r: String)
    ensures
        r@ == seq!['c', 'o', 'n', 'f', 'i', 'g', '.', 't', 'o', 'm', 'l'],
{
    proof {
        reveal_strlit("config.toml");
    }
    String::from_str("config.toml")
}

} // verus!
