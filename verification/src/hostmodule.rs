//! Host-function slots of a host module's opaque context.

use vstd::prelude::*;
use crate::le_bytes::{
    le_u32, le_u64, lemma_u32_le_at_encoding, lemma_u64_le_at_encoding, read_u32_le_at, read_u64_le_at,
    u32_le_at, u64_le_at,
};

verus! {

/// Bytes in a `usize`.
pub open spec fn usize_bytes() -> nat {
    (usize::BITS / 8) as nat
}

/// The little-endian bytes of a `usize`, as many as a `usize` has.
pub open spec fn le_usize(x: usize) -> Seq<u8> {
    Seq::new(usize_bytes(), |i: int| ((x >> ((8 * i) as usize)) & 0xff) as u8)
}

/// Overwrites the bytes at `offset` with the little-endian bytes of `value`.
pub fn write_usize(buf: &mut [u8], offset: usize, value: usize)
    requires
        offset + usize_bytes() <= old(buf)@.len(),
    ensures
        final(buf)@ == old(buf)@.take(offset as int) + le_usize(value) + old(buf)@.skip(
            offset + usize_bytes(),
        ),
{
    let n: usize = (usize::BITS / 8) as usize;
    let ghost orig = buf@;
    let len = buf.len();
    let mut i: usize = 0;
    while i < n
        invariant
            n == usize_bytes(),
            n <= 8,
            len == orig.len(),
            offset + n <= orig.len(),
            buf@.len() == orig.len(),
            i <= n,
            buf@ == orig.take(offset as int) + le_usize(value).take(i as int) + orig.skip(offset + i),
        decreases n - i,
    {
        buf[offset + i] = ((value >> (8 * i)) & 0xff) as u8;
        assert(buf@ =~= orig.take(offset as int) + le_usize(value).take(i + 1) + orig.skip(
            offset + i + 1,
        ));
        i = i + 1;
    }
    assert(le_usize(value).take(n as int) =~= le_usize(value));
}

/// The `usize` whose little-endian bytes are at `offset` in `b`.
pub open spec fn usize_le_at(b: Seq<u8>, offset: int) -> usize {
    if usize::BITS == 64 {
        u64_le_at(b, offset) as usize
    } else {
        u32_le_at(b, offset) as usize
    }
}

/// Reads the `usize` whose little-endian bytes are at `offset`.
pub fn read_usize(buf: &[u8], offset: usize) -> (res: usize)
    requires
        offset + usize_bytes() <= buf@.len(),
    ensures
        res == usize_le_at(buf@, offset as int),
{
    if usize::BITS == 64 {
        read_u64_le_at(buf, offset) as usize
    } else {
        read_u32_le_at(buf, offset) as usize
    }
}

/// The little-endian bytes of a `usize` are those of the `u64` or `u32` of
/// the same value.
proof fn lemma_le_usize_bytes(x: usize)
    ensures
        usize::BITS == 64 ==> le_usize(x) == le_u64(x as u64),
        usize::BITS == 32 ==> le_usize(x) == le_u32(x as u32),
{
    if usize::BITS == 64 {
        assert forall|i: int| 0 <= i < 8 implies #[trigger] le_usize(x)[i] == le_u64(x as u64)[i] by {
            let k = (8 * i) as usize;
            assert(((x >> k) & 0xff) as u8 == (((x as u64) >> k) & 0xff) as u8) by (bit_vector)
                requires
                    usize::BITS == 64,
            ;
            if i == 0 {
                assert(((x as u64) >> 0usize) & 0xff == (x as u64) & 0xff) by (bit_vector);
            }
        }
        assert(le_usize(x) =~= le_u64(x as u64));
    }
    if usize::BITS == 32 {
        assert forall|i: int| 0 <= i < 4 implies #[trigger] le_usize(x)[i] == le_u32(x as u32)[i] by {
            let k = (8 * i) as usize;
            assert(((x >> k) & 0xff) as u8 == (((x as u32) >> k) & 0xff) as u8) by (bit_vector)
                requires
                    usize::BITS == 32,
                    k < 32,
            ;
            if i == 0 {
                assert(((x as u32) >> 0usize) & 0xff == (x as u32) & 0xff) by (bit_vector);
            }
        }
        assert(le_usize(x) =~= le_u32(x as u32));
    }
}

/// Writing a `usize` and reading it back at the same offset gives it back;
/// bytes outside the written ones keep their values.
pub proof fn lemma_usize_write_read(b: Seq<u8>, offset: int, x: usize)
    requires
        0 <= offset,
        offset + usize_bytes() <= b.len(),
    ensures
        with_usize_at(b, offset, x).len() == b.len(),
        usize_le_at(with_usize_at(b, offset, x), offset) == x,
        forall|i: int|
            0 <= i < b.len() && (i < offset || i >= offset + usize_bytes()) ==> #[trigger] with_usize_at(
                b,
                offset,
                x,
            )[i] == b[i],
{
    lemma_le_usize_bytes(x);
    let w = with_usize_at(b, offset, x);
    if usize::BITS == 64 {
        assert(w =~= b.take(offset) + (le_u64(x as u64) + b.skip(offset + 8)));
        lemma_u64_le_at_encoding(b.take(offset), x as u64, b.skip(offset + 8));
    } else {
        assert(w =~= b.take(offset) + (le_u32(x as u32) + b.skip(offset + 4)));
        lemma_u32_le_at_encoding(b.take(offset), x as u32, b.skip(offset + 4));
    }
}

/// The header of a host module's opaque context: the module's address.
pub const HOST_MODULE_HEADER_SIZE: usize = 32;

/// Each host function's slot: the two words of its function reference.
pub const HOST_FUNCTION_SLOT_SIZE: usize = 16;

/// `b` with the little-endian bytes of `value` at `offset`.
pub open spec fn with_usize_at(b: Seq<u8>, offset: int, value: usize) -> Seq<u8> {
    b.take(offset) + le_usize(value) + b.skip(offset + usize_bytes())
}

/// `b` with the references of the first `k` host functions in their slots.
pub open spec fn with_host_funcs(b: Seq<u8>, funcs: Seq<(usize, usize)>, k: nat) -> Seq<u8>
    decreases k,
{
    if k == 0 || k > funcs.len() {
        b
    } else {
        let at = HOST_MODULE_HEADER_SIZE + HOST_FUNCTION_SLOT_SIZE * (k - 1);
        with_usize_at(
            with_usize_at(with_host_funcs(b, funcs, (k - 1) as nat), at, funcs[k - 1].0),
            at + usize_bytes(),
            funcs[k - 1].1,
        )
    }
}

/// The opaque context of a host module: zeros, with the module's address at
/// the start and each host function's reference (the two words of its
/// pointer) in its 16-byte slot after the 32-byte header.
pub open spec fn host_module_opaque(module_addr: usize, funcs: Seq<(usize, usize)>) -> Seq<u8> {
    let size = HOST_MODULE_HEADER_SIZE + HOST_FUNCTION_SLOT_SIZE * funcs.len();
    with_host_funcs(with_usize_at(Seq::new(size as nat, |i: int| 0u8), 0, module_addr), funcs, funcs.len())
}

/// Where host function `index`'s slot starts in a host module's opaque
/// context.
pub fn host_func_slot_offset(index: usize) -> (res: usize)
    requires
        HOST_MODULE_HEADER_SIZE + HOST_FUNCTION_SLOT_SIZE * index <= usize::MAX,
    ensures
        res == HOST_MODULE_HEADER_SIZE + HOST_FUNCTION_SLOT_SIZE * index,
{
    HOST_MODULE_HEADER_SIZE + HOST_FUNCTION_SLOT_SIZE * index
}

/// Where the slot of host function `i` starts.
pub open spec fn slot_start(i: int) -> int {
    HOST_MODULE_HEADER_SIZE + HOST_FUNCTION_SLOT_SIZE * i
}

/// Whether `b` holds, in the slots of the first `k` host functions, their
/// references, each read back as its two words.
pub open spec fn slots_hold(b: Seq<u8>, funcs: Seq<(usize, usize)>, k: nat) -> bool {
    forall|i: int|
        0 <= i < k ==> (usize_le_at(b, slot_start(i)), usize_le_at(b, slot_start(i) + usize_bytes()))
            == #[trigger] funcs[i]
}

proof fn lemma_with_host_funcs(b: Seq<u8>, funcs: Seq<(usize, usize)>, k: nat)
    requires
        b.len() == HOST_MODULE_HEADER_SIZE + HOST_FUNCTION_SLOT_SIZE * funcs.len(),
        k <= funcs.len(),
    ensures
        with_host_funcs(b, funcs, k).len() == b.len(),
        forall|p: int| 0 <= p < HOST_MODULE_HEADER_SIZE ==> #[trigger] with_host_funcs(b, funcs, k)[p] == b[p],
        slots_hold(with_host_funcs(b, funcs, k), funcs, k),
    decreases k,
{
    assert(usize::BITS == 32 || usize::BITS == 64);
    if k > 0 {
        lemma_with_host_funcs(b, funcs, (k - 1) as nat);
        let b1 = with_host_funcs(b, funcs, (k - 1) as nat);
        let at = slot_start(k - 1);
        let f = funcs[k - 1];
        assert(at + HOST_FUNCTION_SLOT_SIZE <= b.len()) by (nonlinear_arith)
            requires
                at == HOST_MODULE_HEADER_SIZE + HOST_FUNCTION_SLOT_SIZE * (k - 1),
                k <= funcs.len(),
                b.len() == HOST_MODULE_HEADER_SIZE + HOST_FUNCTION_SLOT_SIZE * funcs.len(),
        ;
        lemma_usize_write_read(b1, at, f.0);
        let b2 = with_usize_at(b1, at, f.0);
        lemma_usize_write_read(b2, at + usize_bytes(), f.1);
        let b3 = with_usize_at(b2, at + usize_bytes(), f.1);
        assert(b3 == with_host_funcs(b, funcs, k));
        assert(usize_le_at(b3, at) == usize_le_at(b2, at));
        assert forall|i: int| 0 <= i < k implies (usize_le_at(b3, slot_start(i)), usize_le_at(
            b3,
            slot_start(i) + usize_bytes(),
        )) == #[trigger] funcs[i] by {
            if i < k - 1 {
                assert(slot_start(i) + HOST_FUNCTION_SLOT_SIZE <= at) by (nonlinear_arith)
                    requires
                        i < k - 1,
                        at == HOST_MODULE_HEADER_SIZE + HOST_FUNCTION_SLOT_SIZE * (k - 1),
                ;
                assert(funcs[i] == (usize_le_at(b1, slot_start(i)), usize_le_at(b1, slot_start(i) + usize_bytes())));
                assert(usize_le_at(b3, slot_start(i)) == usize_le_at(b1, slot_start(i)));
                assert(usize_le_at(b3, slot_start(i) + usize_bytes()) == usize_le_at(
                    b1,
                    slot_start(i) + usize_bytes(),
                ));
            }
        }
    }
}

/// A host module's opaque context gives back what it was built from: the
/// module's address from its header, and each host function's reference
/// from that function's slot.
pub proof fn lemma_host_module_opaque_round_trip(module_addr: usize, funcs: Seq<(usize, usize)>)
    ensures
        host_module_opaque(module_addr, funcs).len() == HOST_MODULE_HEADER_SIZE + HOST_FUNCTION_SLOT_SIZE
            * funcs.len(),
        usize_le_at(host_module_opaque(module_addr, funcs), 0) == module_addr,
        slots_hold(host_module_opaque(module_addr, funcs), funcs, funcs.len()),
{
    assert(usize::BITS == 32 || usize::BITS == 64);
    let size = HOST_MODULE_HEADER_SIZE + HOST_FUNCTION_SLOT_SIZE * funcs.len();
    let zeros = Seq::new(size as nat, |i: int| 0u8);
    lemma_usize_write_read(zeros, 0, module_addr);
    let b0 = with_usize_at(zeros, 0, module_addr);
    lemma_with_host_funcs(b0, funcs, funcs.len());
    let b = host_module_opaque(module_addr, funcs);
    assert(usize_le_at(b, 0) == usize_le_at(b0, 0));
}

/// The module address that a host module's opaque context records.
pub fn host_module_address(opaque: &[u8]) -> (res: usize)
    requires
        usize_bytes() <= opaque@.len(),
    ensures
        res == usize_le_at(opaque@, 0),
{
    read_usize(opaque, 0)
}

/// The two words of host function `index`'s reference, from its slot.
pub fn host_func_ref_words(opaque: &[u8], index: usize) -> (res: (usize, usize))
    requires
        slot_start(index + 1) <= opaque@.len(),
    ensures
        res == (usize_le_at(opaque@, slot_start(index as int)), usize_le_at(
            opaque@,
            slot_start(index as int) + usize_bytes(),
        )),
{
    assert(usize::BITS == 32 || usize::BITS == 64);
    let len = opaque.len();
    assert(HOST_MODULE_HEADER_SIZE + HOST_FUNCTION_SLOT_SIZE * index + HOST_FUNCTION_SLOT_SIZE <= len);
    let at = HOST_MODULE_HEADER_SIZE + HOST_FUNCTION_SLOT_SIZE * index;
    let w: usize = (usize::BITS / 8) as usize;
    (read_usize(opaque, at), read_usize(opaque, at + w))
}

/// Builds a host module's opaque context from the module's address and its
/// host functions' references.
pub fn build_host_module_opaque(module_addr: usize, host_funcs: &[(usize, usize)]) -> (res: Vec<u8>)
    requires
        HOST_MODULE_HEADER_SIZE + HOST_FUNCTION_SLOT_SIZE * host_funcs@.len() <= usize::MAX,
    ensures
        res@ == host_module_opaque(module_addr, host_funcs@),
{
    let n = host_funcs.len();
    let size = HOST_MODULE_HEADER_SIZE + HOST_FUNCTION_SLOT_SIZE * n;
    let mut opaque: Vec<u8> = vec![0u8; size];
    assert(opaque@ =~= Seq::new(size as nat, |i: int| 0u8));
    let w: usize = (usize::BITS / 8) as usize;
    assert(w == usize_bytes());
    assert(w <= 8);
    write_usize(opaque.as_mut_slice(), 0, module_addr);
    let ghost start = opaque@;
    let mut i: usize = 0;
    while i < n
        invariant
            n == host_funcs@.len(),
            size == HOST_MODULE_HEADER_SIZE + HOST_FUNCTION_SLOT_SIZE * n,
            opaque@.len() == size,
            w == usize_bytes(),
            w <= 8,
            i <= n,
            opaque@ == with_host_funcs(start, host_funcs@, i as nat),
        decreases n - i,
    {
        let at = HOST_MODULE_HEADER_SIZE + HOST_FUNCTION_SLOT_SIZE * i;
        let (first, second) = host_funcs[i];
        write_usize(opaque.as_mut_slice(), at, first);
        write_usize(opaque.as_mut_slice(), at + w, second);
        i = i + 1;
    }
    opaque
}

} // verus!
