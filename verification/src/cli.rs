//! The launcher's command line, as plain values.

use vstd::prelude::*;

verus! {

/// What the launcher was started with.
pub struct Args {
    /// The install to launch right away, by its id.
    pub install: Option<String>,
}

impl Args {
    /// The install the launcher was asked to launch, if any.
    pub fn launch_install(self) -> (r: Option<String>)
        ensures
            r == self.install,
    {
        self.install
    }
}

} // verus!
