//! What the command line asks for.

use vstd::prelude::*;

verus! {

/// The options of one run.
#[derive(Debug)]
pub struct Opt {
    /// Choose a region only, and leave the profile as it is.
    pub region: bool,
    /// Print the version and do nothing else.
    pub version: bool,
    /// A configuration file to read in place of the default one.
    pub config: Option<String>,
}

} // verus!
