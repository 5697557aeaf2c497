//! The amd64 ISA glue of the call engine: native stacks need no unwinding or
//! adjustment there, and a host call's stack words are read in place.

use vstd::prelude::*;
use crate::aot::AotTargetArchitecture;

verus! {

/// The name of this ISA.
pub fn arch() -> (res: &'static str)
    ensures
        res@ == "amd64"@,
{
    "amd64"
}

/// Whether the engine runs natively on the target: only on x86-64.
pub fn is_supported(target: AotTargetArchitecture) -> (res: bool)
    ensures
        res == (target == AotTargetArchitecture::X86_64),
{
    target == AotTargetArchitecture::X86_64
}

/// Collects the return addresses of a native stack; amd64 frames record
/// none, so the list is cleared.
pub fn unwind_stack(
    stack_pointer: usize,
    frame_pointer: usize,
    stack_top: usize,
    return_addresses: &mut Vec<usize>,
)
    ensures
        final(return_addresses)@ == Seq::<usize>::empty(),
{
    return_addresses.clear();
}

/// The words of a host call's stack: the first word gives the size in bytes,
/// a multiple of 8, of the words that follow it.
pub fn go_call_stack_view(words: &[u64]) -> (res: &[u64])
    requires
        words@.len() >= 1,
        (words@[0] as usize) % 8 == 0,
        1 + (words@[0] as usize) / 8 <= words@.len(),
    ensures
        res@ == words@.subrange(1, 1 + (words@[0] as usize) / 8),
{
    let size_bytes = words[0] as usize;
    let len = size_bytes / 8;
    &words[1..1 + len]
}

/// Fixes up a cloned native stack; amd64 frames hold no absolute stack
/// addresses, so there is nothing to do.
pub fn adjust_cloned_stack(old_sp: usize, old_top: usize, new_sp: usize, new_fp: usize, new_top: usize) {
}

} // verus!
