//! The settings of the commit command.
use vstd::prelude::*;

verus! {

#[derive(Debug)]
pub struct Config {
    pub default_ai: Option<String>,
}

impl Default for Config {
    fn default() -> (r: Self)
        ensures
            r.default_ai is None,
    {
        Config { default_ai: None }
    }
}

} // verus!
