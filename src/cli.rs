//! The options of a run.
use vstd::prelude::*;

verus! {

/// What the command line asks for.
#[derive(Debug)]
pub struct Cli {
    /// The template to expand.
    pub template_path: String,
    /// Whether to show the causes of an error.
    pub debug: bool,
}

impl Cli {
    pub fn new(template_path: String, debug: bool) -> (r: Cli)
        ensures
            r.template_path == template_path,
            r.debug == debug,
    {
        Cli { template_path, debug }
    }
}

} // verus!
