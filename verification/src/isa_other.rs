//! The ISA glue for architectures the engine does not run on.

use vstd::prelude::*;

verus! {

/// The name of this ISA.
pub fn arch() -> (res: &'static str)
    ensures
        res@ == "unsupported"@,
{
    "unsupported"
}

/// The engine does not run natively here.
pub fn is_supported() -> (res: bool)
    ensures
        res == false,
{
    false
}

} // verus!
