//! Function references of the SSA builder.

use vstd::prelude::*;

verus! {

/// A reference to a function in SSA: its wasm function index.
#[derive(Clone, Copy, Debug, PartialEq, Eq, Hash, Structural)]
pub struct FuncRef(pub u32);

/// The SSA reference of a wasm function index.
pub fn function_index_to_func_ref(index: u32) -> (res: FuncRef)
    ensures
        res.0 == index,
{
    FuncRef(index)
}

} // verus!
