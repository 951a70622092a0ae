//! The application root: the configured directory layout.

use vstd::prelude::*;

use crate::config::Config;
use crate::utils::path::{join, spec_join};

verus! {

/// The configured layout: the roots and trees areas under the base
/// directory, and the loaded configuration.
pub struct Application {
    pub roots_dir: String,
    pub trees_dir: String,
    pub config: Config,
}

impl Application {
    /// Derive the layout from the configuration: `roots` and `trees`
    /// directly under the configured base directory.
    pub fn new(config: Config) -> (app: Application)
        ensures
            app.roots_dir@ == spec_join(config.general.base_dir@, "roots"@),
            app.trees_dir@ == spec_join(config.general.base_dir@, "trees"@),
            app.config == config,
    {
        let roots_dir = join(config.general.base_dir.as_str(), "roots");
        let trees_dir = join(config.general.base_dir.as_str(), "trees");
        Application { roots_dir, trees_dir, config }
    }
}

} // verus!
