//! Configuration of the module: the format template its output is rendered
//! from, and the flag with which a host disables the module altogether (the
//! host checks the flag before running the pipeline).

use vstd::prelude::*;

verus! {

/// The module's configuration.
pub struct RConfig {
    pub format: String,
    pub disabled: bool,
}

impl RConfig {
    /// The built-in defaults: the standard version badge, enabled.
    pub fn new() -> (c: RConfig)
        ensures
            c.format@ == "via [R ${version}](blue bold) "@,
            !c.disabled,
    {
        RConfig {
            format: String::from_str("via [R ${version}](blue bold) "),
            disabled: false,
        }
    }
}

} // verus!
