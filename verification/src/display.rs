//! Handle for an attached display.

use vstd::prelude::*;

verus! {

/// State of the display attached to a machine.
pub struct DisplayDriver {
    pub hello: bool,
}

impl DisplayDriver {
    /// A driver that has not yet greeted its display.
    pub fn new() -> (d: DisplayDriver)
        ensures
            d.hello == false,
    {
        DisplayDriver { hello: false }
    }
}

impl Default for DisplayDriver {
    fn default() -> (d: DisplayDriver)
        ensures
            d.hello == false,
    {
        DisplayDriver::new()
    }
}

} // verus!
