//! The `config` subcommand.

use crate::global::Config;
use vstd::prelude::*;

verus! {

/// The arguments of the `config` subcommand.
pub struct ConfigArgs {
    list: bool,
    config: Config,
}

impl ConfigArgs {
    pub closed spec fn spec_list(&self) -> bool {
        self.list
    }

    pub closed spec fn spec_config(&self) -> Config {
        self.config
    }

    pub fn new(list: bool, config: Config) -> (r: ConfigArgs)
        ensures
            r.spec_list() == list,
            r.spec_config() == config,
    {
        ConfigArgs { list, config }
    }

    /// Whether the stored configuration is to be printed after the update.
    #[verifier::when_used_as_spec(spec_list)]
    pub fn list(&self) -> (r: bool)
        ensures
            r == self.spec_list(),
    {
        self.list
    }

    /// The settings given on the command line.
    pub fn config(&self) -> (r: &Config)
        ensures
            *r == self.spec_config(),
    {
        &self.config
    }

    /// The configuration to store: the settings given on the command line laid
    /// over `stored`.
    pub fn updated(&self, stored: &Config) -> (r: Config)
        ensures
            r@ == stored@.merge(self.spec_config()@),
    {
        stored.merge(&self.config)
    }
}

} // verus!
