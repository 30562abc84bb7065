//! Values the page templates share.  The templates themselves are rendered
//! outside the verified library.

use vstd::prelude::*;

verus! {

/// Function for getting the size of the header in pixels for all device
/// sizes.
pub fn get_header_spacer_size() -> (r: usize)
    ensures
        r == 86,
{
    86
}

} // verus!
