//! The memory move of `memory.copy` and friends: overlapping ranges are
//! moved as if through a temporary copy. Compiled code calls the host's
//! `memmove` on raw addresses; its address is handed to the call setup.

use vstd::prelude::*;

verus! {

/// `buf` after the `len` bytes at `src` are moved to `dst`.
pub open spec fn moved(buf: Seq<u8>, dst: int, src: int, len: int) -> Seq<u8> {
    buf.take(dst) + buf.subrange(src, src + len) + buf.skip(dst + len)
}

/// Moves `len` bytes of `buf` from `src` to `dst`; the ranges may overlap.
pub fn memmove(buf: &mut [u8], dst: usize, src: usize, len: usize)
    requires
        dst + len <= old(buf)@.len(),
        src + len <= old(buf)@.len(),
    ensures
        final(buf)@ == moved(old(buf)@, dst as int, src as int, len as int),
{
    if len == 0 || dst == src {
        assert(old(buf)@ =~= moved(old(buf)@, dst as int, src as int, len as int));
        return;
    }
    let ghost orig = buf@;
    let n = buf.len();
    if dst < src {
        let mut k: usize = 0;
        while k < len
            invariant
                n == orig.len(),
                buf@.len() == n,
                dst < src,
                dst + len <= n,
                src + len <= n,
                k <= len,
                forall|i: int| 0 <= i < dst ==> buf@[i] == orig[i],
                forall|i: int| dst <= i < dst + k ==> buf@[i] == orig[src + (i - dst)],
                forall|i: int| dst + k <= i < n ==> buf@[i] == orig[i],
            decreases len - k,
        {
            let b = buf[src + k];
            buf[dst + k] = b;
            k = k + 1;
        }
    } else {
        let mut k: usize = len;
        while k > 0
            invariant
                n == orig.len(),
                buf@.len() == n,
                dst > src,
                dst + len <= n,
                src + len <= n,
                k <= len,
                forall|i: int| 0 <= i < dst + k ==> buf@[i] == orig[i],
                forall|i: int| dst + k <= i < dst + len ==> buf@[i] == orig[src + (i - dst)],
                forall|i: int| dst + len <= i < n ==> buf@[i] == orig[i],
            decreases k,
        {
            k = k - 1;
            let b = buf[src + k];
            buf[dst + k] = b;
        }
    }
    assert(buf@ =~= moved(orig, dst as int, src as int, len as int));
}

} // verus!
